//! What a transcription request is answered.
//!
//! Times that are known only as floating-point numbers are kept as what they
//! stand for; whoever writes the answer works them out.

use vstd::prelude::*;

use crate::text::same_text;
use crate::transcript::{Stamp, Token, TokenView, Transcript, TranscriptView};

verus! {

/// A number of seconds in an answer.
#[derive(Debug, Clone, Copy, PartialEq, Eq, Structural)]
pub enum Seconds {
    /// The start of the file.
    Zero,
    /// The length of the file.
    Duration,
    /// The time of a token.
    At(Stamp),
}

/// A word with its times.
pub struct WordTs {
    pub word: String,
    pub start: Seconds,
    pub end: Seconds,
}

/// A [`WordTs`] with its word as a sequence of characters.
#[verifier::ext_equal]
pub struct WordView {
    pub word: Seq<char>,
    pub start: Seconds,
    pub end: Seconds,
}

impl View for WordTs {
    type V = WordView;

    open spec fn view(&self) -> WordView {
        WordView { word: self.word@, start: self.start, end: self.end }
    }
}

/// A segment of the transcript. The four last fields are whole numbers.
pub struct Segment {
    pub id: usize,
    pub seek: u64,
    pub start: Seconds,
    pub end: Seconds,
    pub text: String,
    pub tokens: Vec<u32>,
    pub temperature: u8,
    pub avg_logprob: u8,
    pub compression_ratio: u8,
    pub no_speech_prob: u8,
}

/// A [`Segment`] with its text as a sequence of characters.
#[verifier::ext_equal]
pub struct SegmentView {
    pub id: usize,
    pub seek: u64,
    pub start: Seconds,
    pub end: Seconds,
    pub text: Seq<char>,
    pub tokens: Seq<u32>,
    pub temperature: u8,
    pub avg_logprob: u8,
    pub compression_ratio: u8,
    pub no_speech_prob: u8,
}

impl View for Segment {
    type V = SegmentView;

    open spec fn view(&self) -> SegmentView {
        SegmentView {
            id: self.id,
            seek: self.seek,
            start: self.start,
            end: self.end,
            text: self.text@,
            tokens: self.tokens@,
            temperature: self.temperature,
            avg_logprob: self.avg_logprob,
            compression_ratio: self.compression_ratio,
            no_speech_prob: self.no_speech_prob,
        }
    }
}

/// The answer in the format `verbose_json`. Fields that are `None` are left out.
pub struct VerboseJson {
    pub task: String,
    pub language: String,
    pub duration: Seconds,
    pub text: String,
    pub words: Option<Vec<WordTs>>,
    pub segments: Option<Vec<Segment>>,
}

/// A [`VerboseJson`] with its texts as sequences of characters.
#[verifier::ext_equal]
pub struct VerboseView {
    pub task: Seq<char>,
    pub language: Seq<char>,
    pub duration: Seconds,
    pub text: Seq<char>,
    pub words: Option<Seq<WordView>>,
    pub segments: Option<Seq<SegmentView>>,
}

impl View for VerboseJson {
    type V = VerboseView;

    open spec fn view(&self) -> VerboseView {
        VerboseView {
            task: self.task@,
            language: self.language@,
            duration: self.duration,
            text: self.text@,
            words: match self.words {
                Some(words) => Some(words@.map_values(|w: WordTs| w@)),
                None => None,
            },
            segments: match self.segments {
                Some(segments) => Some(segments@.map_values(|s: Segment| s@)),
                None => None,
            },
        }
    }
}

/// The answer in the format `json`.
pub struct TranscriptionJson {
    pub text: String,
}

/// The answer to a request.
pub enum Reply {
    Text { content_type: String, body: String },
    Verbose(VerboseJson),
    Json(TranscriptionJson),
}

/// A [`Reply`] with its texts as sequences of characters.
#[verifier::ext_equal]
pub enum ReplyView {
    Text { content_type: Seq<char>, body: Seq<char> },
    Verbose(VerboseView),
    Json(Seq<char>),
}

impl View for Reply {
    type V = ReplyView;

    open spec fn view(&self) -> ReplyView {
        match self {
            Reply::Text { content_type, body } => ReplyView::Text {
                content_type: content_type@,
                body: body@,
            },
            Reply::Verbose(json) => ReplyView::Verbose(json@),
            Reply::Json(json) => ReplyView::Json(json.text@),
        }
    }
}

/// A token as a word of the answer.
pub open spec fn word_of(token: TokenView) -> WordView {
    WordView { word: token.text, start: Seconds::At(token.start), end: Seconds::At(token.end) }
}

/// The words of an answer: one for each token, or none at all.
pub open spec fn words_of(tokens: Seq<TokenView>) -> Option<Seq<WordView>> {
    if tokens.len() > 0 {
        Some(tokens.map_values(|t: TokenView| word_of(t)))
    } else {
        None
    }
}

/// The one segment of an answer: the whole transcript, from the start of its
/// first token to the end of its last, or over the whole file where it has none.
pub open spec fn segment_of(transcript: TranscriptView) -> SegmentView {
    SegmentView {
        id: 0,
        seek: 0,
        start: if transcript.tokens.len() > 0 {
            Seconds::At(transcript.tokens.first().start)
        } else {
            Seconds::Zero
        },
        end: if transcript.tokens.len() > 0 {
            Seconds::At(transcript.tokens.last().end)
        } else {
            Seconds::Duration
        },
        text: transcript.text,
        tokens: Seq::empty(),
        temperature: 0,
        avg_logprob: 0,
        compression_ratio: 1,
        no_speech_prob: 0,
    }
}

/// The answer in the format `verbose_json`.
pub open spec fn verbose_of(transcript: TranscriptView) -> VerboseView {
    VerboseView {
        task: "transcribe"@,
        language: "en"@,
        duration: Seconds::Duration,
        text: transcript.text,
        words: words_of(transcript.tokens),
        segments: Some(seq![segment_of(transcript)]),
    }
}

/// The answer in the wanted format. A format that is not known counts as `json`.
pub open spec fn reply_of(response_format: Seq<char>, transcript: TranscriptView) -> ReplyView {
    if response_format == "text"@ {
        ReplyView::Text { content_type: "text/plain; charset=utf-8"@, body: transcript.text }
    } else if response_format == "verbose_json"@ {
        ReplyView::Verbose(verbose_of(transcript))
    } else {
        ReplyView::Json(transcript.text)
    }
}

fn words(tokens: &Vec<Token>) -> (r: Option<Vec<WordTs>>)
    ensures
        match r {
            Some(words) => words_of(tokens@.map_values(|t: Token| t@)) == Some(
                words@.map_values(|w: WordTs| w@),
            ),
            None => words_of(tokens@.map_values(|t: Token| t@)) is None,
        },
{
    let count: usize = tokens.len();
    if count == 0 {
        return None;
    }
    let mut out: Vec<WordTs> = Vec::new();
    let mut i: usize = 0;
    while i < count
        invariant
            count == tokens@.len(),
            i <= count,
            out@.len() == i,
            forall|j: int| 0 <= j < i ==> (#[trigger] out@[j])@ == word_of(tokens@[j]@),
        decreases count - i,
    {
        let token: &Token = &tokens[i];
        out.push(
            WordTs {
                word: token.text.clone(),
                start: Seconds::At(token.start),
                end: Seconds::At(token.end),
            },
        );
        i = i + 1;
    }
    proof {
        assert(out@.map_values(|w: WordTs| w@) =~= tokens@.map_values(|t: Token| t@).map_values(
            |t: TokenView| word_of(t),
        ));
    }
    Some(out)
}

fn segment(transcript: &Transcript) -> (r: Segment)
    ensures
        r@ == segment_of(transcript@),
{
    let count: usize = transcript.tokens.len();
    let start: Seconds = if count > 0 {
        Seconds::At(transcript.tokens[0].start)
    } else {
        Seconds::Zero
    };
    let end: Seconds = if count > 0 {
        Seconds::At(transcript.tokens[count - 1].end)
    } else {
        Seconds::Duration
    };
    Segment {
        id: 0,
        seek: 0,
        start,
        end,
        text: transcript.text.clone(),
        tokens: Vec::new(),
        temperature: 0,
        avg_logprob: 0,
        compression_ratio: 1,
        no_speech_prob: 0,
    }
}

/// The answer to a request for `response_format` whose file was transcribed as
/// `transcript`.
pub fn render(response_format: &str, transcript: Transcript) -> (r: Reply)
    ensures
        r@ == reply_of(response_format@, transcript@),
{
    if same_text(response_format, "text") {
        Reply::Text {
            content_type: "text/plain; charset=utf-8".to_owned(),
            body: transcript.text,
        }
    } else if same_text(response_format, "verbose_json") {
        let words: Option<Vec<WordTs>> = words(&transcript.tokens);
        let segment: Segment = segment(&transcript);
        let mut segments: Vec<Segment> = Vec::new();
        segments.push(segment);
        assert(segments@.map_values(|s: Segment| s@) =~= seq![segment_of(transcript@)]);
        Reply::Verbose(
            VerboseJson {
                task: "transcribe".to_owned(),
                language: "en".to_owned(),
                duration: Seconds::Duration,
                text: transcript.text,
                words,
                segments: Some(segments),
            },
        )
    } else {
        Reply::Json(TranscriptionJson { text: transcript.text })
    }
}

/// The kind of an answer depends on the format alone: plain text exactly where the
/// format is `text`, verbose exactly where it is `verbose_json`, and JSON otherwise.
/// Plain text and JSON give the text of the transcript, whole and unchanged.
pub proof fn law_reply_kind(format: Seq<char>, transcript: TranscriptView)
    ensures
        reply_of(format, transcript) is Text <==> format == "text"@,
        reply_of(format, transcript) is Verbose <==> format == "verbose_json"@,
        reply_of(format, transcript) is Json <==> format != "text"@ && format != "verbose_json"@,
        reply_of(format, transcript) matches ReplyView::Text { content_type, body } ==> {
            &&& content_type == "text/plain; charset=utf-8"@
            &&& body == transcript.text
        },
        reply_of(format, transcript) matches ReplyView::Json(text) ==> text == transcript.text,
{
    reveal_strlit("text");
    reveal_strlit("verbose_json");
    assert("text"@.len() == 4);
    assert("verbose_json"@.len() == 12);
}

/// A verbose answer gives the text of the transcript, a word for each of its tokens
/// in their order and with their times, and one segment over the whole: from the
/// start of the first token to the end of the last, or over the whole file where
/// there are no tokens. Without tokens the words are left out.
pub proof fn law_verbose_answer(format: Seq<char>, transcript: TranscriptView)
    ensures
        reply_of(format, transcript) matches ReplyView::Verbose(json) ==> {
            let tokens = transcript.tokens;
            &&& json.task == "transcribe"@
            &&& json.language == "en"@
            &&& json.duration == Seconds::Duration
            &&& json.text == transcript.text
            &&& json.words is None <==> tokens.len() == 0
            &&& json.words matches Some(words) ==> {
                &&& words.len() == tokens.len()
                &&& forall|i: int|
                    0 <= i < tokens.len() ==> {
                        &&& (#[trigger] words[i]).word == tokens[i].text
                        &&& words[i].start == Seconds::At(tokens[i].start)
                        &&& words[i].end == Seconds::At(tokens[i].end)
                    }
            }
            &&& json.segments matches Some(segments) && {
                &&& segments.len() == 1
                &&& segments[0].id == 0
                &&& segments[0].seek == 0
                &&& segments[0].text == transcript.text
                &&& segments[0].tokens.len() == 0
                &&& segments[0].temperature == 0
                &&& segments[0].avg_logprob == 0
                &&& segments[0].compression_ratio == 1
                &&& segments[0].no_speech_prob == 0
                &&& tokens.len() > 0 ==> segments[0].start == Seconds::At(tokens[0].start)
                    && segments[0].end == Seconds::At(tokens[tokens.len() - 1].end)
                &&& tokens.len() == 0 ==> segments[0].start == Seconds::Zero && segments[0].end
                    == Seconds::Duration
            }
        },
{
}

/// A word is viewed as what its fields hold.
pub proof fn law_word_view(word: WordTs)
    ensures
        word@.word == word.word@,
        word@.start == word.start,
        word@.end == word.end,
{
}

/// A segment is viewed as what its fields hold.
pub proof fn law_segment_view(segment: Segment)
    ensures
        segment@.id == segment.id,
        segment@.seek == segment.seek,
        segment@.start == segment.start,
        segment@.end == segment.end,
        segment@.text == segment.text@,
        segment@.tokens == segment.tokens@,
        segment@.temperature == segment.temperature,
        segment@.avg_logprob == segment.avg_logprob,
        segment@.compression_ratio == segment.compression_ratio,
        segment@.no_speech_prob == segment.no_speech_prob,
{
}

/// A verbose answer is viewed as what its fields hold.
pub proof fn law_verbose_view(json: VerboseJson)
    ensures
        json@.task == json.task@,
        json@.language == json.language@,
        json@.duration == json.duration,
        json@.text == json.text@,
        json@.words is Some <==> json.words is Some,
        json.words matches Some(words) ==> {
            &&& json@.words->Some_0.len() == words@.len()
            &&& forall|i: int|
                0 <= i < words@.len() ==> #[trigger] json@.words->Some_0[i] == words@[i]@
        },
        json@.segments is Some <==> json.segments is Some,
        json.segments matches Some(segments) ==> {
            &&& json@.segments->Some_0.len() == segments@.len()
            &&& forall|i: int|
                0 <= i < segments@.len() ==> #[trigger] json@.segments->Some_0[i] == segments@[i]@
        },
{
}

/// An answer is viewed as its kind and what its fields hold.
pub proof fn law_reply_view(reply: Reply)
    ensures
        reply matches Reply::Text { content_type, body } ==> reply@ == (ReplyView::Text {
            content_type: content_type@,
            body: body@,
        }),
        reply matches Reply::Verbose(json) ==> reply@ == ReplyView::Verbose(json@),
        reply matches Reply::Json(json) ==> reply@ == ReplyView::Json(json.text@),
{
}

}
