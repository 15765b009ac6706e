use parakeet_server::error::AppError;
use parakeet_server::form::{Field, Form, Upload};

fn field(name: &str, body: &[u8]) -> Field {
    Field { name: Some(name.to_owned()), file_name: None, body: Ok(body.to_vec()) }
}

fn file(file_name: Option<&str>, body: &[u8]) -> Field {
    Field {
        name: Some("file".to_owned()),
        file_name: file_name.map(str::to_owned),
        body: Ok(body.to_vec()),
    }
}

fn broken(name: &str) -> Field {
    Field { name: Some(name.to_owned()), file_name: None, body: Err("cut off".to_owned()) }
}

fn fill(fields: Vec<Field>) -> Result<Form, AppError> {
    let mut form = Form::new();
    for f in fields {
        form = form.accept(f)?;
    }
    Ok(form)
}

fn upload(fields: Vec<Field>) -> Upload {
    fill(fields).ok().unwrap().finish().ok().unwrap()
}

#[test]
fn a_file_alone_is_enough() {
    let u = upload(vec![file(Some("speech.wav"), b"RIFF")]);
    assert_eq!(u.bytes, b"RIFF");
    assert_eq!(u.file_name.as_deref(), Some("speech.wav"));
    assert_eq!(u.response_format, "json");
    assert!(!u.want_words);
    assert_eq!(u.suffix(), ".wav");
}

#[test]
fn the_file_is_required() {
    let form = fill(vec![field("response_format", b"text")]).ok().unwrap();
    let e = form.finish().err().unwrap();
    assert!(matches!(e, AppError::BadRequest(_)));
    assert_eq!(e.status(), 400);
    assert_eq!(e.message(), "Missing required field: file");
}

#[test]
fn fields_without_a_part_are_ignored() {
    let nameless = Field { name: None, file_name: Some("x.mp3".to_owned()), body: Ok(vec![1]) };
    let u = upload(vec![
        field("model", b"whisper-1"),
        file(Some("a.flac"), b"abc"),
        field("language", b"de"),
        field("prompt", b"hello"),
        broken("temperature"),
        nameless,
        field("File", b"zzz"),
    ]);
    assert_eq!(u.bytes, b"abc");
    assert_eq!(u.file_name.as_deref(), Some("a.flac"));
    assert_eq!(u.response_format, "json");
    assert!(!u.want_words);
}

#[test]
fn a_part_that_cannot_be_read_spoils_the_form() {
    for name in ["file", "response_format", "timestamp_granularities[]", "timestamp_granularities"] {
        let e = fill(vec![broken(name)]).err().unwrap();
        assert_eq!(e.status(), 400);
        assert_eq!(e.message(), "cut off");
    }
}

#[test]
fn values_are_trimmed() {
    let u = upload(vec![file(None, b""), field("response_format", b" \t\r\nverbose_json\n ")]);
    assert_eq!(u.response_format, "verbose_json");
    assert!(u.want_words);
    let u = upload(vec![file(None, b""), field("response_format", "\u{a0}\u{2003}text\u{3000}".as_bytes())]);
    assert_eq!(u.response_format, "text");
    let u = upload(vec![file(None, b""), field("response_format", b"  a b  ")]);
    assert_eq!(u.response_format, "a b");
    let u = upload(vec![file(None, b""), field("response_format", b" \n")]);
    assert_eq!(u.response_format, "");
}

#[test]
fn all_kinds_of_white_space_are_trimmed() {
    let blanks = "\u{9}\u{b}\u{c}\u{85}\u{a0}\u{1680}\u{2000}\u{200a}\u{2028}\u{2029}\u{202f}\u{205f}\u{3000}";
    let form = Form::new().with_format(&format!("{blanks}a{blanks}b{blanks}"));
    assert_eq!(form.response_format, format!("a{blanks}b"));
    for c in ['\u{8}', '\u{e}', '\u{1f}', '\u{200b}', '\u{180e}', '\u{feff}'] {
        let text = format!("{c}x{c}");
        assert_eq!(Form::new().with_format(&text).response_format, text);
    }
    for c in (0..=char::MAX as u32).filter_map(char::from_u32) {
        assert_eq!(parakeet_server::text::white_space(c), c.is_whitespace());
    }
}

#[test]
fn bytes_that_are_no_text_are_replaced() {
    let u = upload(vec![file(None, b""), field("response_format", b" te\xffxt ")]);
    assert_eq!(u.response_format, "te\u{fffd}xt");
}

#[test]
fn word_times_are_asked_for_by_granularity_or_format() {
    let g = |name: &str, body: &[u8]| upload(vec![file(None, b""), field(name, body)]).want_words;
    assert!(g("timestamp_granularities[]", b"word"));
    assert!(g("timestamp_granularities", b" word\n"));
    assert!(!g("timestamp_granularities[]", b"segment"));
    assert!(!g("timestamp_granularities[]", b"words"));
    assert!(g("response_format", b"verbose_json"));
    assert!(!g("response_format", b"text"));
    let u = upload(vec![
        field("timestamp_granularities[]", b"segment"),
        field("timestamp_granularities[]", b"word"),
        file(None, b""),
        field("response_format", b"text"),
    ]);
    assert!(u.want_words);
}

#[test]
fn granularities_are_kept_in_order() {
    let form = Form::new().with_granularity(" segment ").with_granularity("word");
    assert_eq!(form.granularities, vec!["segment".to_owned(), "word".to_owned()]);
    assert!(form.wants_words());
}

#[test]
fn the_last_of_several_fields_counts() {
    let u = upload(vec![
        file(Some("one.mp3"), b"1"),
        field("response_format", b"text"),
        field("response_format", b"verbose_json"),
        file(None, b"22"),
        field("response_format", b"srt"),
    ]);
    assert_eq!(u.bytes, b"22");
    assert_eq!(u.file_name, None);
    assert_eq!(u.response_format, "srt");
    assert!(!u.want_words);
}

#[test]
fn the_format_can_be_set_by_text() {
    let form = Form::new().with_format("\n text ");
    assert_eq!(form.response_format, "text");
}
