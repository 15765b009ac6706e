//! Transcription by the models that listen to a stream: they hear a recording in
//! frames of a fixed size and say what they understood after each.

use vstd::prelude::*;
use vstd::string::*;

use crate::cut::{cut_count, cut_end, cut_start, cuts, law_cuts_cover, lemma_cut_count};
use crate::text::{is_white_space, law_trimmed, trim, trimmed};
use crate::transcript::{Token, TokenView, Transcript, TranscriptView};

verus! {

/// The samples that a model is to hear next: a range, and whether it is the last.
#[derive(Debug, Clone, Copy, PartialEq, Eq, Structural)]
pub struct Frame {
    pub start: usize,
    pub end: usize,
    pub last: bool,
}

/// What a [`StreamingJob`] stands for: the number of samples, the size of a
/// frame, and what the model has said so far.
#[verifier::ext_equal]
pub struct StreamingView {
    pub samples: int,
    pub size: int,
    pub said: Seq<Seq<char>>,
}

impl StreamingView {
    /// The frame that the model is to hear next.
    pub open spec fn pending(self) -> Option<Frame> {
        let i = self.said.len() as int;
        if i < cut_count(self.samples, self.size) {
            Some(
                Frame {
                    start: cut_start(self.size, i) as usize,
                    end: cut_end(self.samples, self.size, i) as usize,
                    last: i + 1 == cut_count(self.samples, self.size),
                },
            )
        } else {
            None
        }
    }

    /// What has been transcribed so far: all that was said, without white space
    /// at either end, and no tokens.
    pub open spec fn transcript(self) -> TranscriptView {
        TranscriptView { text: trimmed(self.said.flatten()), tokens: Seq::empty() }
    }
}

/// The transcription of a recording, frame by frame.
pub struct StreamingJob {
    samples: usize,
    size: usize,
    pos: usize,
    text: String,
    said: Ghost<Seq<Seq<char>>>,
}

impl View for StreamingJob {
    type V = StreamingView;

    closed spec fn view(&self) -> StreamingView {
        StreamingView { samples: self.samples as int, size: self.size as int, said: self.said@ }
    }
}

impl StreamingJob {
    #[verifier::type_invariant]
    spec fn is_valid(self) -> bool {
        let n = self.said@.len() as int;
        &&& self.size > 0
        &&& n <= cut_count(self.samples as int, self.size as int)
        &&& self.pos == vstd::math::min(cut_start(self.size as int, n), self.samples as int)
        &&& self.text@ == self.said@.flatten()
    }

    /// Begins with a recording of `samples` samples, to be heard in frames of
    /// `size` samples.
    pub fn start(samples: usize, size: usize) -> (r: StreamingJob)
        requires
            size > 0,
        ensures
            r@ == (StreamingView {
                samples: samples as int,
                size: size as int,
                said: Seq::empty(),
            }),
    {
        proof {
            lemma_cut_count(samples as int, size as int, 0);
        }
        StreamingJob { samples, size, pos: 0, text: String::new(), said: Ghost(Seq::empty()) }
    }

    /// The frame that the model is to hear next, or `None` once it has heard them
    /// all.
    pub fn pending(&self) -> (r: Option<Frame>)
        ensures
            r == self@.pending(),
            r matches Some(frame) ==> {
                &&& frame.start == cut_start(self@.size, self@.said.len() as int)
                &&& frame.end == cut_end(self@.samples, self@.size, self@.said.len() as int)
                &&& frame.start < frame.end <= self@.samples
            },
    {
        proof {
            use_type_invariant(self);
            lemma_cut_count(self.samples as int, self.size as int, self.said@.len() as int);
        }
        if self.pos < self.samples {
            let left: usize = self.samples - self.pos;
            let end: usize = if left <= self.size {
                self.samples
            } else {
                self.pos + self.size
            };
            Some(Frame { start: self.pos, end, last: end == self.samples })
        } else {
            None
        }
    }

    /// Takes what the model said after the pending frame.
    pub fn accept(self, said: &str) -> (r: StreamingJob)
        requires
            self@.pending() is Some,
        ensures
            r@ == (StreamingView { said: self@.said.push(said@), ..self@ }),
    {
        proof {
            use_type_invariant(&self);
        }
        let ghost before = self.said@;
        let StreamingJob { samples, size, pos, mut text, said: _ } = self;
        proof {
            lemma_cut_count(samples as int, size as int, before.len() as int);
            before.lemma_flatten_push(said@);
        }
        text.append(said);
        let left: usize = samples - pos;
        let next: usize = if left <= size {
            samples
        } else {
            pos + size
        };
        StreamingJob { samples, size, pos: next, text, said: Ghost(before.push(said@)) }
    }

    /// Takes what came of the call on the pending frame. A call that failed ends
    /// the run with its error, and what was transcribed before it is dropped.
    pub fn hear(self, heard: Result<String, String>) -> (r: Result<StreamingJob, String>)
        requires
            self@.pending() is Some,
        ensures
            match r {
                Ok(job) => stream_after(self@, outcome(heard)) == Ok::<StreamingView, Seq<char>>(
                    job@,
                ),
                Err(e) => stream_after(self@, outcome(heard)) == Err::<StreamingView, Seq<char>>(
                    e@,
                ),
            },
    {
        match heard {
            Ok(said) => Ok(self.accept(said.as_str())),
            Err(e) => Err(e),
        }
    }

    /// The transcript of the recording, once the model has heard all of it.
    pub fn finish(self) -> (r: Transcript)
        requires
            self@.pending() is None,
        ensures
            r@ == self@.transcript(),
    {
        proof {
            use_type_invariant(&self);
        }
        let text: String = trim(self.text.as_str()).to_owned();
        let tokens: Vec<Token> = Vec::new();
        assert(tokens@.map_values(|t: Token| t@) =~= Seq::<TokenView>::empty());
        Transcript { text, tokens }
    }
}

/// What came of a call, with its texts as sequences of characters.
pub open spec fn outcome(heard: Result<String, String>) -> Result<Seq<char>, Seq<char>> {
    match heard {
        Ok(said) => Ok(said@),
        Err(e) => Err(e@),
    }
}

/// How far a job has come after one call more, or the error that ended it.
pub open spec fn stream_after(
    job: StreamingView,
    heard: Result<Seq<char>, Seq<char>>,
) -> Result<StreamingView, Seq<char>> {
    match heard {
        Ok(said) => Ok(StreamingView { said: job.said.push(said), ..job }),
        Err(e) => Err(e),
    }
}

/// How far a job has come after all of these calls, or the error that ended it.
pub open spec fn stream_after_all(
    job: StreamingView,
    heard: Seq<Result<Seq<char>, Seq<char>>>,
) -> Result<StreamingView, Seq<char>>
    decreases heard.len(),
{
    if heard.len() == 0 {
        Ok(job)
    } else {
        match stream_after_all(job, heard.drop_last()) {
            Ok(next) => stream_after(next, heard.last()),
            Err(e) => Err(e),
        }
    }
}

/// The first call that fails ends the run with its error, whatever other calls
/// would have said: nothing is tried again and no part of the text is kept.
pub proof fn law_first_failure_ends_stream(
    job: StreamingView,
    heard: Seq<Result<Seq<char>, Seq<char>>>,
    k: int,
)
    requires
        0 <= k < heard.len(),
        heard[k] is Err,
        forall|i: int| 0 <= i < k ==> (#[trigger] heard[i]) is Ok,
    ensures
        stream_after_all(job, heard) == Err::<StreamingView, Seq<char>>(heard[k]->Err_0),
    decreases heard.len(),
{
    let rest = heard.drop_last();
    if k < rest.len() {
        assert(rest[k] == heard[k]);
        law_first_failure_ends_stream(job, rest, k);
    } else {
        assert forall|i: int| 0 <= i < rest.len() implies (#[trigger] rest[i]) is Ok by {
            assert(rest[i] == heard[i]);
        }
        law_all_streamed(job, rest);
    }
}

/// Calls that succeed are kept one after another.
pub proof fn law_all_streamed(job: StreamingView, heard: Seq<Result<Seq<char>, Seq<char>>>)
    requires
        forall|i: int| 0 <= i < heard.len() ==> (#[trigger] heard[i]) is Ok,
    ensures
        stream_after_all(job, heard) == Ok::<StreamingView, Seq<char>>(
            StreamingView {
                said: job.said + heard.map_values(|h: Result<Seq<char>, Seq<char>>| h->Ok_0),
                ..job
            },
        ),
    decreases heard.len(),
{
    let said = |h: Result<Seq<char>, Seq<char>>| h->Ok_0;
    if heard.len() == 0 {
        assert(job.said + heard.map_values(said) =~= job.said);
    } else {
        let rest = heard.drop_last();
        law_all_streamed(job, rest);
        assert((job.said + rest.map_values(said)).push(said(heard.last())) =~= job.said
            + heard.map_values(said));
    }
}

/// The frames are the cuts of the recording, one by one, so that together they
/// cover it; and the frame that ends the recording, and no other, is marked as
/// the last.
pub proof fn law_frames_are_cuts<T>(job: StreamingView, samples: Seq<T>)
    requires
        job.samples == samples.len(),
        samples.len() <= usize::MAX,
        0 < job.size,
    ensures
        job.pending() is Some <==> job.said.len() < cuts(samples, job.size).len(),
        job.pending() matches Some(frame) ==> {
            &&& samples.subrange(frame.start as int, frame.end as int) == cuts(samples, job.size)[
                job.said.len() as int]
            &&& frame.last <==> frame.end == samples.len()
        },
        cuts(samples, job.size).flatten() == samples,
{
    let i = job.said.len() as int;
    lemma_cut_count(samples.len() as int, job.size, i);
    assert(0 <= cut_start(job.size, i)) by (nonlinear_arith)
        requires
            0 < job.size,
            0 <= i,
    ;
    law_cuts_cover(samples, job.size);
}

/// The text of a stream is all that the model said, one saying directly behind the
/// other, without the white space at its two ends: what was said is white space,
/// the text, and white space again, and the text neither begins nor ends with any.
/// There are no tokens.
pub proof fn law_stream_text(job: StreamingView)
    ensures
        exists|front: Seq<char>, behind: Seq<char>|
            {
                &&& job.said.flatten() == #[trigger] (front + job.transcript().text + behind)
                &&& forall|j: int| 0 <= j < front.len() ==> is_white_space(#[trigger] front[j])
                &&& forall|j: int| 0 <= j < behind.len() ==> is_white_space(#[trigger] behind[j])
            },
        job.transcript().text.len() > 0 ==> !is_white_space(job.transcript().text[0])
            && !is_white_space(job.transcript().text.last()),
        job.transcript().tokens.len() == 0,
{
    let all = job.said.flatten();
    law_trimmed(all);
    let (front, behind) = choose|front: Seq<char>, behind: Seq<char>|
        {
            &&& all == #[trigger] (front + trimmed(all) + behind)
            &&& forall|j: int| 0 <= j < front.len() ==> is_white_space(#[trigger] front[j])
            &&& forall|j: int| 0 <= j < behind.len() ==> is_white_space(#[trigger] behind[j])
        };
    assert(all == front + job.transcript().text + behind);
}

/// Frame number `i` holds the samples from `i * size` on: `size` of them, or as
/// many as are left. There is one exactly where samples are left for it, and it is
/// the last exactly where it takes them all.
pub proof fn law_frame_range(job: StreamingView)
    requires
        0 <= job.samples <= usize::MAX,
        0 < job.size,
    ensures
        ({
            let start = job.said.len() * job.size;
            &&& job.pending() is Some <==> start < job.samples
            &&& job.pending() matches Some(frame) ==> {
                &&& frame.start == start
                &&& job.samples - start <= job.size ==> frame.end == job.samples && frame.last
                &&& job.samples - start > job.size ==> frame.end == start + job.size && !frame.last
            }
        }),
{
    let n = job.said.len() as int;
    lemma_cut_count(job.samples, job.size, n);
    assert((n + 1) * job.size == n * job.size + job.size) by (nonlinear_arith);
    assert(0 <= n * job.size) by (nonlinear_arith)
        requires
            0 <= n,
            0 < job.size,
    ;
}

/// A call that succeeds adds what was said; one that fails says why.
pub proof fn law_outcome(said: String, cause: String)
    ensures
        outcome(Ok(said)) == Ok::<Seq<char>, Seq<char>>(said@),
        outcome(Err(cause)) == Err::<Seq<char>, Seq<char>>(cause@),
{
}

}
