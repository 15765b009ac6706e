use parakeet_server::chunked::{AudioInfo, ChunkedJob, TimestampMode};
use parakeet_server::model::{Model, Run};
use parakeet_server::streaming::{Frame, StreamingJob};
use parakeet_server::transcript::{Offset, Piece, RawToken, Stamp};
use parakeet_server::{Token, Transcript};

fn info(samples: usize, sample_rate: u32, channels: u16) -> AudioInfo {
    AudioInfo { samples, sample_rate, channels }
}

fn raw(text: &str, start: f32, end: f32) -> RawToken {
    RawToken { text: text.to_owned(), start: start.to_bits(), end: end.to_bits() }
}

fn piece(text: &str, tokens: Vec<RawToken>) -> Piece {
    Piece { text: text.to_owned(), tokens }
}

fn chunked(run: Run) -> ChunkedJob {
    match run {
        Run::Chunked(job) => job,
        Run::Streaming(_) => panic!("a chunked job was expected"),
    }
}

fn ranges(mut job: ChunkedJob) -> Vec<(usize, usize)> {
    let mut out = vec![];
    while let Some(range) = job.pending() {
        out.push(range);
        job = job.accept(piece("", vec![]));
    }
    out
}

fn texts(samples: usize, said: &[&str]) -> String {
    let mut job = ChunkedJob::start(info(samples, 10, 1), TimestampMode::Words, 1);
    for text in said {
        assert!(job.pending().is_some());
        job = job.accept(piece(text, vec![]));
    }
    assert!(job.pending().is_none());
    job.finish().text
}

#[test]
fn models_have_their_names() {
    assert_eq!(Model::Ctc.id(), "parakeet-ctc-0.6b");
    assert_eq!(Model::Tdt.id(), "parakeet-tdt-0.6b-v3");
    assert_eq!(Model::Eou.id(), "parakeet-eou-120m-v1");
    assert_eq!(Model::Nemotron.id(), "nemotron-streaming-0.6b");
}

#[test]
fn whole_recordings_are_heard_in_chunks_and_streams_in_frames() {
    let i = info(16000, 16000, 1);
    for model in [Model::Ctc, Model::Tdt] {
        assert_eq!(chunked(model.run(i, true, 10)).mode(), TimestampMode::Words);
        assert_eq!(chunked(model.run(i, false, 10)).mode(), TimestampMode::Sentences);
    }
    assert!(matches!(Model::Eou.run(i, true, 10), Run::Streaming(2560)));
    assert!(matches!(Model::Nemotron.run(i, false, 10), Run::Streaming(8960)));
    assert!(matches!(Model::Eou.run(i, true, 0), Run::Streaming(2560)));
}

#[test]
fn chunks_cover_the_recording() {
    let cut = |samples: usize| ranges(ChunkedJob::start(info(samples, 5, 2), TimestampMode::Words, 1));
    assert_eq!(cut(25), vec![(0, 10), (10, 20), (20, 25)]);
    assert_eq!(cut(20), vec![(0, 10), (10, 20)]);
    assert_eq!(cut(11), vec![(0, 10), (10, 11)]);
    assert_eq!(cut(10), vec![(0, 10)]);
    assert_eq!(cut(3), vec![(0, 3)]);
    assert_eq!(cut(0), vec![(0, 0)]);
}

#[test]
fn an_empty_recording_needs_no_chunk_size() {
    assert_eq!(ranges(ChunkedJob::start(info(0, 0, 0), TimestampMode::Words, 0)), vec![(0, 0)]);
}

#[test]
fn not_every_chunk_size_will_do() {
    assert!(info(100, 10, 1).chunkable(1));
    assert!(!info(100, 10, 1).chunkable(0));
    assert!(!info(100, 0, 1).chunkable(1));
    assert!(!info(100, 10, 0).chunkable(1));
    assert!(info(0, 10, 1).chunkable(0));
    assert!(!info(100, 2, 1).chunkable(u64::MAX));
    assert!(!info(0, 2, 1).chunkable(u64::MAX));
    assert!(info(100, 1, 1).chunkable(usize::MAX as u64));
}

#[test]
fn texts_are_joined_by_single_spaces() {
    assert_eq!(texts(30, &["Hello", "big", "world."]), "Hello big world.");
    assert_eq!(texts(30, &["Hello", "", "world."]), "Hello world.");
    assert_eq!(texts(30, &["", "", "world."]), "world.");
    assert_eq!(texts(30, &["Hello", "", ""]), "Hello");
    assert_eq!(texts(30, &["", "", ""]), "");
    assert_eq!(texts(20, &[" a ", " b "]), " a   b ");
}

#[test]
fn times_are_counted_from_the_start_of_the_chunk() {
    let mut job = ChunkedJob::start(info(25, 5, 2), TimestampMode::Words, 1);
    job = job.accept(piece("a b", vec![raw("a", 0.25, 0.5), raw("b", 0.5, 0.75)]));
    job = job.accept(piece("", vec![]));
    job = job.accept(piece("c", vec![raw("c", 0.125, 0.375)]));
    let Transcript { text, tokens } = job.finish();
    assert_eq!(text, "a b c");
    let at = |bits: f32, samples: usize| Stamp {
        bits: bits.to_bits(),
        offset: Some(Offset { samples, sample_rate: 5, channels: 2 }),
    };
    let seen: Vec<(String, Stamp, Stamp)> =
        tokens.into_iter().map(|Token { text, start, end }| (text, start, end)).collect();
    assert_eq!(
        seen,
        vec![
            ("a".to_owned(), at(0.25, 0), at(0.5, 0)),
            ("b".to_owned(), at(0.5, 0), at(0.75, 0)),
            ("c".to_owned(), at(0.125, 20), at(0.375, 20)),
        ]
    );
}

#[test]
fn a_single_chunk_is_taken_as_it_is() {
    let mut job = ChunkedJob::start(info(7, 10, 1), TimestampMode::Sentences, 1);
    job = job.accept(piece(" Hi. ", vec![raw("Hi.", 0.5, 1.5)]));
    assert!(job.pending().is_none());
    let t = job.finish();
    assert_eq!(t.text, " Hi. ");
    assert_eq!(t.tokens.len(), 1);
    assert_eq!(t.tokens[0].start, Stamp { bits: 0.5f32.to_bits(), offset: None });
    assert_eq!(t.tokens[0].end, Stamp { bits: 1.5f32.to_bits(), offset: None });
}

#[test]
fn frames_cover_the_recording_and_the_last_is_marked() {
    let frames = |samples: usize| {
        let mut job = StreamingJob::start(samples, 2560);
        let mut out = vec![];
        while let Some(frame) = job.pending() {
            out.push(frame);
            job = job.accept("");
        }
        out
    };
    assert_eq!(frames(0), vec![]);
    assert_eq!(frames(1), vec![Frame { start: 0, end: 1, last: true }]);
    assert_eq!(frames(2560), vec![Frame { start: 0, end: 2560, last: true }]);
    assert_eq!(
        frames(5121),
        vec![
            Frame { start: 0, end: 2560, last: false },
            Frame { start: 2560, end: 5120, last: false },
            Frame { start: 5120, end: 5121, last: true },
        ]
    );
}

#[test]
fn streamed_text_is_put_together_and_trimmed() {
    let mut job = StreamingJob::start(25, 10);
    for said in ["  Hel", "lo ", "world.\n"] {
        job = job.accept(said);
    }
    assert!(job.pending().is_none());
    let t = job.finish();
    assert_eq!(t.text, "Hello world.");
    assert!(t.tokens.is_empty());
}

#[test]
fn silence_streams_to_nothing() {
    let t = StreamingJob::start(0, 8960).finish();
    assert_eq!(t.text, "");
    assert!(t.tokens.is_empty());
}

#[test]
fn a_failed_call_ends_a_chunked_run_with_its_error() {
    let job = ChunkedJob::start(info(25, 10, 1), TimestampMode::Words, 1);
    let job = job.hear(Ok(piece("Hello", vec![raw("Hello", 0.5, 1.5)]))).ok().unwrap();
    assert_eq!(job.pending(), Some((10, 20)));
    assert_eq!(job.hear(Err("out of memory".to_owned())).err(), Some("out of memory".to_owned()));
}

#[test]
fn a_failed_call_ends_a_stream_with_its_error() {
    let job = StreamingJob::start(25, 10);
    let job = job.hear(Ok("Hello ".to_owned())).ok().unwrap();
    assert_eq!(job.pending(), Some(Frame { start: 10, end: 20, last: false }));
    assert_eq!(job.hear(Err("device lost".to_owned())).err(), Some("device lost".to_owned()));
}

#[test]
fn calls_that_succeed_are_kept() {
    let mut job = ChunkedJob::start(info(15, 10, 1), TimestampMode::Words, 1);
    for text in ["Hello", "world."] {
        job = job.hear(Ok(piece(text, vec![]))).ok().unwrap();
    }
    assert_eq!(job.finish().text, "Hello world.");
    let mut job = StreamingJob::start(15, 10);
    for said in [" Hello", " world."] {
        job = job.hear(Ok(said.to_owned())).ok().unwrap();
    }
    assert_eq!(job.finish().text, "Hello world.");
}
