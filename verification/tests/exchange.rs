use axum::http::{HeaderMap, HeaderValue};
use parakeet_server::chunked::AudioInfo;
use parakeet_server::error::AppError;
use parakeet_server::exchange::{Event, Exchange, Settings, Stage};
use parakeet_server::form::Field;
use parakeet_server::reply::Reply;
use parakeet_server::Transcript;

fn settings(max_duration: u64) -> Settings {
    Settings { max_duration, chunk_duration: 10 }
}

fn open(max_duration: u64) -> Exchange {
    Exchange::open(&None, settings(max_duration), &HeaderMap::new())
}

fn field(name: &str, file_name: Option<&str>, body: &[u8]) -> Event {
    Event::Field(Field {
        name: Some(name.to_owned()),
        file_name: file_name.map(str::to_owned),
        body: Ok(body.to_vec()),
    })
}

fn decoded(over_limit: bool, shown: &str) -> Event {
    let info = AudioInfo { samples: 8, sample_rate: 4, channels: 1 };
    Event::Decoded { info, over_limit, shown: shown.to_owned() }
}

fn transcribed(text: &str) -> Event {
    Event::Transcribed(Transcript { text: text.to_owned(), tokens: vec![] })
}

fn play(mut exchange: Exchange, events: Vec<Event>) -> Stage {
    for event in events {
        exchange = exchange.step(event);
    }
    exchange.stage
}

fn refusal(stage: Stage) -> (u16, String) {
    match stage {
        Stage::Refused(e) => (e.status(), e.message().to_owned()),
        _ => panic!("a refusal was expected"),
    }
}

fn bad(message: &str) -> (u16, String) {
    (400, message.to_owned())
}

fn uploaded() -> Vec<Event> {
    vec![field("file", Some("speech.wav"), b"RIFF"), Event::FormEnd]
}

#[test]
fn a_request_is_served() {
    let mut events = vec![field("response_format", None, b"text")];
    events.extend(uploaded());
    events.push(decoded(false, "2.0"));
    events.push(transcribed("Hello world."));
    match play(open(10), events) {
        Stage::Answered(Reply::Text { body, .. }) => assert_eq!(body, "Hello world."),
        _ => panic!("an answer was expected"),
    }
}

#[test]
fn the_stages_say_what_to_do() {
    let e = open(0);
    assert!(matches!(e.stage, Stage::Reading(_)));
    let e = e.step(field("timestamp_granularities[]", None, b"word"));
    let e = e.step(field("file", Some("a.mp3"), b"xyz"));
    assert!(matches!(e.stage, Stage::Reading(_)));
    let e = e.step(Event::FormEnd);
    match &e.stage {
        Stage::Decoding(upload) => {
            assert_eq!(upload.bytes, b"xyz");
            assert_eq!(upload.suffix(), ".mp3");
        }
        _ => panic!("the file should be decoded"),
    }
    let e = e.step(decoded(true, "2.0"));
    match &e.stage {
        Stage::Running { info, want_words, chunk_duration, response_format } => {
            assert_eq!(info.samples, 8);
            assert_eq!(*chunk_duration, 10);
            assert!(*want_words);
            assert_eq!(response_format, "json");
        }
        _ => panic!("the model should be run"),
    }
    let e = e.step(transcribed("hi"));
    match e.stage {
        Stage::Answered(Reply::Json(json)) => assert_eq!(json.text, "hi"),
        _ => panic!("an answer was expected"),
    }
}

#[test]
fn without_the_key_nothing_happens() {
    let key = Some("k".to_owned());
    let mut events = uploaded();
    events.push(decoded(false, "2.0"));
    events.push(transcribed("secret"));
    let stage = play(Exchange::open(&key, settings(0), &HeaderMap::new()), events);
    assert!(matches!(stage, Stage::Refused(AppError::Unauthorized(_))));
    assert_eq!(refusal(stage), (401, "Invalid API key".to_owned()));
}

#[test]
fn with_the_key_the_form_is_read() {
    let key = Some("k".to_owned());
    let mut headers = HeaderMap::new();
    headers.insert("authorization", HeaderValue::from_static("Bearer k"));
    assert!(matches!(Exchange::open(&key, settings(0), &headers).stage, Stage::Reading(_)));
}

#[test]
fn faults_of_the_form_are_bad_requests() {
    let stage = play(open(0), vec![Event::FormFailed("no boundary".to_owned())]);
    assert_eq!(refusal(stage), bad("no boundary"));
    let broken = Event::Field(Field {
        name: Some("file".to_owned()),
        file_name: None,
        body: Err("cut off".to_owned()),
    });
    assert_eq!(refusal(play(open(0), vec![broken])), bad("cut off"));
    let stage = play(open(0), vec![Event::FormEnd]);
    assert_eq!(refusal(stage), bad("Missing required field: file"));
}

#[test]
fn faults_of_the_server_are_its_own() {
    let mut events = uploaded();
    events.push(Event::StorageFailed("disk full".to_owned()));
    assert_eq!(refusal(play(open(0), events)), (500, "disk full".to_owned()));
    let mut events = uploaded();
    events.push(decoded(false, "2.0"));
    events.push(Event::RunFailed("poisoned".to_owned()));
    let stage = play(open(0), events);
    assert!(matches!(stage, Stage::Refused(AppError::Internal(_))));
    assert_eq!(refusal(stage), (500, "poisoned".to_owned()));
}

#[test]
fn a_file_that_cannot_be_decoded_is_a_bad_request() {
    let mut events = uploaded();
    events.push(Event::DecodeFailed("unsupported format".to_owned()));
    assert_eq!(refusal(play(open(0), events)), bad("Audio decode error: unsupported format"));
}

#[test]
fn files_over_the_limit_are_refused() {
    let mut events = uploaded();
    events.push(decoded(true, "61.3"));
    let stage = play(open(60), events);
    assert!(matches!(stage, Stage::Refused(AppError::PayloadTooLarge(_))));
    assert_eq!(
        refusal(stage),
        (413, "Audio duration 61.3s exceeds server limit of 60s".to_owned())
    );
}

#[test]
fn a_limit_of_zero_is_none() {
    let mut events = uploaded();
    events.push(decoded(true, "61.3"));
    assert!(matches!(play(open(0), events), Stage::Running { .. }));
}

#[test]
fn what_is_over_stays_over() {
    let mut events = uploaded();
    events.push(decoded(false, "2.0"));
    events.push(transcribed("one"));
    events.push(transcribed("two"));
    events.push(Event::RunFailed("late".to_owned()));
    match play(open(0), events) {
        Stage::Answered(Reply::Json(json)) => assert_eq!(json.text, "one"),
        _ => panic!("an answer was expected"),
    }
}

#[test]
fn events_out_of_turn_change_nothing() {
    let stage = play(open(0), vec![transcribed("x"), decoded(true, "9.9")]);
    assert!(matches!(stage, Stage::Reading(_)));
}

#[test]
fn the_model_is_run_with_the_configured_chunk_duration() {
    for chunk_duration in [0, 7, u64::MAX] {
        let set_up = Settings { max_duration: 0, chunk_duration };
        let mut events = vec![field("timestamp_granularities[]", None, b"segment")];
        events.extend(uploaded());
        events.push(decoded(false, "2.0"));
        match play(Exchange::open(&None, set_up, &HeaderMap::new()), events) {
            Stage::Running { chunk_duration: handed_out, want_words, .. } => {
                assert_eq!(handed_out, chunk_duration);
                assert!(!want_words);
            }
            _ => panic!("the model should be run"),
        }
    }
}
