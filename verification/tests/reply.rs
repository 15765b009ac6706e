use parakeet_server::reply::{render, Reply, Seconds, VerboseJson};
use parakeet_server::transcript::{Offset, Stamp};
use parakeet_server::{Token, Transcript};

fn stamp(seconds: f32) -> Stamp {
    Stamp { bits: seconds.to_bits(), offset: None }
}

fn late(seconds: f32) -> Stamp {
    let offset = Some(Offset { samples: 160_000, sample_rate: 16_000, channels: 1 });
    Stamp { bits: seconds.to_bits(), offset }
}

fn hello() -> Transcript {
    Transcript {
        text: "Hello world.".to_owned(),
        tokens: vec![
            Token { text: "Hello".to_owned(), start: stamp(0.04), end: stamp(0.48) },
            Token { text: "world.".to_owned(), start: late(0.52), end: late(1.10) },
        ],
    }
}

fn verbose(transcript: Transcript) -> VerboseJson {
    match render("verbose_json", transcript) {
        Reply::Verbose(json) => json,
        _ => panic!("a verbose answer was expected"),
    }
}

#[test]
fn text_is_answered_as_plain_text() {
    match render("text", hello()) {
        Reply::Text { content_type, body } => {
            assert_eq!(content_type, "text/plain; charset=utf-8");
            assert_eq!(body, "Hello world.");
        }
        _ => panic!("a plain answer was expected"),
    }
}

#[test]
fn other_formats_are_answered_as_json() {
    for format in ["json", "srt", "", "TEXT", "verbose_json "] {
        match render(format, hello()) {
            Reply::Json(json) => assert_eq!(json.text, "Hello world."),
            _ => panic!("a JSON answer was expected"),
        }
    }
}

#[test]
fn the_verbose_answer_gives_words_and_one_segment() {
    let json = verbose(hello());
    assert_eq!(json.task, "transcribe");
    assert_eq!(json.language, "en");
    assert_eq!(json.duration, Seconds::Duration);
    assert_eq!(json.text, "Hello world.");
    let words = json.words.unwrap();
    assert_eq!(words.len(), 2);
    assert_eq!(words[0].word, "Hello");
    assert_eq!(words[0].start, Seconds::At(stamp(0.04)));
    assert_eq!(words[0].end, Seconds::At(stamp(0.48)));
    assert_eq!(words[1].word, "world.");
    assert_eq!(words[1].start, Seconds::At(late(0.52)));
    assert_eq!(words[1].end, Seconds::At(late(1.10)));
    let segments = json.segments.unwrap();
    assert_eq!(segments.len(), 1);
    let s = &segments[0];
    assert_eq!((s.id, s.seek), (0, 0));
    assert_eq!(s.start, Seconds::At(stamp(0.04)));
    assert_eq!(s.end, Seconds::At(late(1.10)));
    assert_eq!(s.text, "Hello world.");
    assert!(s.tokens.is_empty());
    assert_eq!(
        (s.temperature, s.avg_logprob, s.compression_ratio, s.no_speech_prob),
        (0, 0, 1, 0)
    );
}

#[test]
fn without_tokens_there_are_no_words_and_the_segment_spans_the_file() {
    let json = verbose(Transcript { text: "hm".to_owned(), tokens: vec![] });
    assert!(json.words.is_none());
    let segments = json.segments.unwrap();
    assert_eq!(segments.len(), 1);
    assert_eq!(segments[0].start, Seconds::Zero);
    assert_eq!(segments[0].end, Seconds::Duration);
    assert_eq!(segments[0].text, "hm");
}
