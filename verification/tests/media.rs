use parakeet_server::media::{suffix_for, temp_suffix};

#[test]
fn the_extension_is_kept() {
    assert_eq!(temp_suffix(Some("speech.mp3")), ".mp3");
    assert_eq!(temp_suffix(Some("a.b.flac")), ".flac");
    assert_eq!(temp_suffix(Some("dir.d/speech.ogg")), ".ogg");
    assert_eq!(temp_suffix(Some("dir/speech.ogg/")), ".ogg");
    assert_eq!(temp_suffix(Some("dir/speech.ogg/.")), ".ogg");
    assert_eq!(temp_suffix(Some("../speech.aac")), ".aac");
    assert_eq!(temp_suffix(Some("12:30.aiff")), ".aiff");
    assert_eq!(temp_suffix(Some("a..wav")), ".wav");
}

#[test]
fn an_empty_extension_is_one() {
    assert_eq!(temp_suffix(Some("speech.")), ".");
    assert_eq!(temp_suffix(Some("a..")), ".");
}

#[test]
fn without_an_extension_wav_is_taken() {
    assert_eq!(temp_suffix(None), ".wav");
    for name in ["", "speech", ".mp3", "..", ".", "/", "dir.d/speech", "dir.mp3/..", "dir/.mp3"] {
        assert_eq!(temp_suffix(Some(name)), ".wav");
    }
}

#[test]
fn a_known_extension_is_put_behind_a_dot() {
    assert_eq!(suffix_for(Some("mp3")), ".mp3");
    assert_eq!(suffix_for(Some("")), ".");
    assert_eq!(suffix_for(None), ".wav");
}

#[test]
fn no_suffix_holds_a_slash() {
    for name in ["a.b/c", "a/b.c/d.e", "../../x.y/z", "x./y", "./.", "a.b/../c.d"] {
        assert!(!temp_suffix(Some(name)).contains('/'));
    }
}

#[test]
fn an_extension_at_the_end_is_seen_on_every_platform() {
    assert_eq!(temp_suffix(Some("c:a.mp3")), ".mp3");
    assert_eq!(temp_suffix(Some("C:\\x\\speech.mp3")), ".mp3");
    assert_eq!(temp_suffix(Some("dir.d\\speech.ogg")), ".ogg");
    assert_eq!(temp_suffix(Some("a:b.c:d.flac")), ".flac");
    assert_eq!(temp_suffix(Some("\\speech.aac")), ".aac");
}
