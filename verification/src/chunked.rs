//! Transcription in chunks of a few seconds, for the models that hear whole
//! recordings. Short chunks keep the buffers of the execution provider small.

use vstd::prelude::*;
use vstd::string::*;

use crate::cut::{
    cut_count, cut_end, cut_start, cuts, law_cuts_cover, lemma_cut_count, lemma_cuts_prefix,
};
use crate::transcript::{
    full_text, law_full_text, law_texts_occur, lemma_full_text_empty, lemma_full_text_push, placed,
    Offset, Piece, PieceView,
    RawTokenView, Token, TokenView, Transcript, TranscriptView,
};

verus! {

/// The level at which a model reports times.
#[derive(Debug, Clone, Copy, PartialEq, Eq, Structural)]
pub enum TimestampMode {
    Words,
    Sentences,
}

/// The shape of a decoded recording. `samples` counts the samples of all
/// channels together.
#[derive(Debug, Clone, Copy, PartialEq, Eq, Structural)]
pub struct AudioInfo {
    pub samples: usize,
    pub sample_rate: u32,
    pub channels: u16,
}

impl AudioInfo {
    /// How many samples make `seconds` seconds.
    pub open spec fn samples_in(self, seconds: u64) -> int {
        self.sample_rate * self.channels * seconds
    }

    /// Whether the recording can be cut into chunks of `seconds` seconds: the
    /// size of a chunk can be counted, and it is not zero where there are samples.
    pub open spec fn can_chunk(self, seconds: u64) -> bool {
        &&& self.samples_in(seconds) <= usize::MAX
        &&& self.samples_in(seconds) > 0 || self.samples == 0
    }

    /// Tests whether the recording can be cut into chunks of `seconds` seconds.
    pub fn chunkable(&self, seconds: u64) -> (r: bool)
        ensures
            r == self.can_chunk(seconds),
    {
        proof {
            self.lemma_rate();
        }
        let rate: u64 = self.sample_rate as u64 * self.channels as u64;
        match rate.checked_mul(seconds) {
            Some(size) => size <= usize::MAX as u64 && (size > 0 || self.samples == 0),
            None => false,
        }
    }

    proof fn lemma_rate(self)
        ensures
            0 <= self.sample_rate * self.channels <= 0xffff_ffff * 0xffff,
    {
        let rate = self.sample_rate as int;
        let channels = self.channels as int;
        assert(0 <= rate * channels <= 0xffff_ffff * 0xffff) by (nonlinear_arith)
            requires
                0 <= rate <= 0xffff_ffff,
                0 <= channels <= 0xffff,
        ;
    }
}

/// How many times a model is asked about `len` samples: once where they fit into
/// one chunk, even where there are none, and once for each chunk otherwise.
pub open spec fn call_count(len: int, size: int) -> int {
    if len <= size {
        1
    } else {
        cut_count(len, size)
    }
}

/// The place of chunk `i`, from which its times are counted. A recording that
/// fits into one chunk has no places.
pub open spec fn chunk_offset(info: AudioInfo, size: int, i: int) -> Option<Offset> {
    if info.samples <= size {
        None
    } else {
        Some(
            Offset {
                samples: cut_start(size, i) as usize,
                sample_rate: info.sample_rate,
                channels: info.channels,
            },
        )
    }
}

/// The tokens of a recording whose chunks were heard as `pieces`: those of each
/// chunk in turn, counted from the place of the chunk.
pub open spec fn placed_tokens(info: AudioInfo, size: int, pieces: Seq<PieceView>) -> Seq<TokenView>
    decreases pieces.len(),
{
    if pieces.len() == 0 {
        Seq::empty()
    } else {
        placed_tokens(info, size, pieces.drop_last()) + pieces.last().tokens.map_values(
            |t: RawTokenView| placed(t, chunk_offset(info, size, pieces.len() - 1)),
        )
    }
}

/// What a [`ChunkedJob`] stands for: the recording, the size of a chunk in
/// samples, and what the model has said so far.
#[verifier::ext_equal]
pub struct ChunkedView {
    pub info: AudioInfo,
    pub mode: TimestampMode,
    pub size: int,
    pub pieces: Seq<PieceView>,
}

impl ChunkedView {
    /// Whether a chunk holds samples wherever there are any.
    pub open spec fn is_valid(self) -> bool {
        self.size > 0 || (self.size == 0 && self.info.samples == 0)
    }

    /// The samples that the model is to hear next, as a range.
    pub open spec fn pending(self) -> Option<(int, int)> {
        let i = self.pieces.len() as int;
        if i < call_count(self.info.samples as int, self.size) {
            Some((cut_start(self.size, i), cut_end(self.info.samples as int, self.size, i)))
        } else {
            None
        }
    }

    /// What has been transcribed so far.
    pub open spec fn transcript(self) -> TranscriptView {
        TranscriptView {
            text: full_text(self.pieces),
            tokens: placed_tokens(self.info, self.size, self.pieces),
        }
    }
}

/// The transcription of a recording, chunk by chunk.
pub struct ChunkedJob {
    info: AudioInfo,
    mode: TimestampMode,
    size: usize,
    begun: bool,
    pos: usize,
    text: String,
    tokens: Vec<Token>,
    pieces: Ghost<Seq<PieceView>>,
}

impl View for ChunkedJob {
    type V = ChunkedView;

    closed spec fn view(&self) -> ChunkedView {
        ChunkedView {
            info: self.info,
            mode: self.mode,
            size: self.size as int,
            pieces: self.pieces@,
        }
    }
}

impl ChunkedJob {
    #[verifier::type_invariant]
    spec fn is_valid(self) -> bool {
        let n = self.pieces@.len() as int;
        let len = self.info.samples as int;
        let size = self.size as int;
        &&& self@.is_valid()
        &&& n <= call_count(len, size)
        &&& self.begun == (n > 0)
        &&& self.pos == vstd::math::min(cut_start(size, n), len)
        &&& self.text@ == full_text(self.pieces@)
        &&& self.tokens@.map_values(|t: Token| t@) == placed_tokens(self.info, size, self.pieces@)
    }

    /// Begins with a recording of this shape, cut into chunks of
    /// `chunk_duration` seconds.
    pub fn start(info: AudioInfo, mode: TimestampMode, chunk_duration: u64) -> (r: ChunkedJob)
        requires
            info.can_chunk(chunk_duration),
        ensures
            r@.is_valid(),
            r@ == (ChunkedView {
                info,
                mode,
                size: info.samples_in(chunk_duration),
                pieces: Seq::empty(),
            }),
    {
        proof {
            info.lemma_rate();
            lemma_size(info, chunk_duration);
        }
        let rate: u64 = info.sample_rate as u64 * info.channels as u64;
        let size: usize = (rate * chunk_duration) as usize;
        let text: String = String::new();
        let tokens: Vec<Token> = Vec::new();
        proof {
            let none = Seq::<PieceView>::empty();
            lemma_full_text_empty();
            assert(tokens@.map_values(|t: Token| t@) =~= placed_tokens(info, size as int, none));
            if size > 0 {
                lemma_cut_count(info.samples as int, size as int, 0);
            }
        }
        ChunkedJob { info, mode, size, begun: false, pos: 0, text, tokens, pieces: Ghost(Seq::empty()) }
    }

    /// The level at which the model is to report times.
    pub fn mode(&self) -> (r: TimestampMode)
        ensures
            r == self@.mode,
    {
        self.mode
    }

    /// The range of samples that the model is to hear next, or `None` once it has
    /// heard them all.
    pub fn pending(&self) -> (r: Option<(usize, usize)>)
        ensures
            match r {
                Some((start, end)) => self@.pending() == Some((start as int, end as int)),
                None => self@.pending() is None,
            },
            r matches Some((start, end)) ==> start <= end <= self@.info.samples,
    {
        proof {
            use_type_invariant(self);
            lemma_next(self.info.samples as int, self.size as int, self.pieces@.len() as int);
        }
        if !self.begun || self.pos < self.info.samples {
            let left: usize = self.info.samples - self.pos;
            let end: usize = if left <= self.size {
                self.info.samples
            } else {
                self.pos + self.size
            };
            Some((self.pos, end))
        } else {
            None
        }
    }

    /// Takes what the model said about the pending samples.
    pub fn accept(self, piece: Piece) -> (r: ChunkedJob)
        requires
            self@.pending() is Some,
        ensures
            r@ == (ChunkedView { pieces: self@.pieces.push(piece@), ..self@ }),
    {
        proof {
            use_type_invariant(&self);
        }
        let ghost before = self.pieces@;
        let ghost n = before.len() as int;
        let ChunkedJob { info, mode, size, begun: _, pos, mut text, mut tokens, pieces: _ } = self;
        proof {
            lemma_next(info.samples as int, size as int, n);
            lemma_full_text_push(before, piece@);
        }
        let offset: Option<Offset> = if info.samples <= size {
            None
        } else {
            Some(Offset { samples: pos, sample_rate: info.sample_rate, channels: info.channels })
        };
        assert(offset == chunk_offset(info, size as int, n));

        if !text.as_str().is_empty() && !piece.text.as_str().is_empty() {
            proof {
                reveal_strlit(" ");
                assert(" "@ =~= seq![' ']);
            }
            text.append(" ");
        }
        text.append(piece.text.as_str());

        let ghost old_tokens = tokens@.map_values(|t: Token| t@);
        let ghost added = |t: RawTokenView| placed(t, offset);
        let count: usize = piece.tokens.len();
        let mut i: usize = 0;
        while i < count
            invariant
                count == piece.tokens@.len(),
                i <= count,
                added == (|t: RawTokenView| placed(t, offset)),
                tokens@.map_values(|t: Token| t@) == old_tokens + piece@.tokens.take(
                    i as int,
                ).map_values(added),
            decreases count - i,
        {
            let token: Token = piece.tokens[i].place(offset);
            let ghost upto = tokens@;
            tokens.push(token);
            i = i + 1;
            proof {
                assert(tokens@.map_values(|t: Token| t@) =~= upto.map_values(|t: Token| t@).push(
                    token@,
                ));
                assert(piece@.tokens.take(i as int).map_values(added) =~= piece@.tokens.take(
                    i - 1,
                ).map_values(added).push(token@));
            }
        }
        let left: usize = info.samples - pos;
        let next: usize = if left <= size {
            info.samples
        } else {
            pos + size
        };
        proof {
            assert(piece@.tokens.take(count as int) =~= piece@.tokens);
            assert(before.push(piece@).drop_last() =~= before);
            assert(tokens@.map_values(|t: Token| t@) =~= placed_tokens(
                info,
                size as int,
                before.push(piece@),
            ));
        }
        ChunkedJob {
            info,
            mode,
            size,
            begun: true,
            pos: next,
            text,
            tokens,
            pieces: Ghost(before.push(piece@)),
        }
    }

    /// Takes what came of the call on the pending samples. A call that failed ends
    /// the run with its error, and what was transcribed before it is dropped.
    pub fn hear(self, heard: Result<Piece, String>) -> (r: Result<ChunkedJob, String>)
        requires
            self@.pending() is Some,
        ensures
            match r {
                Ok(job) => job_after(self@, outcome(heard)) == Ok::<ChunkedView, Seq<char>>(job@),
                Err(e) => job_after(self@, outcome(heard)) == Err::<ChunkedView, Seq<char>>(e@),
            },
    {
        match heard {
            Ok(piece) => Ok(self.accept(piece)),
            Err(e) => Err(e),
        }
    }

    /// The transcript of the recording, once the model has heard all of it.
    pub fn finish(self) -> (r: Transcript)
        requires
            self@.pending() is None,
        ensures
            r@ == self@.transcript(),
    {
        proof {
            use_type_invariant(&self);
        }
        let ChunkedJob { info: _, mode: _, size: _, begun: _, pos: _, text, tokens, pieces: _ } =
            self;
        Transcript { text, tokens }
    }
}

/// What came of a call, with its texts as sequences of characters.
pub open spec fn outcome(heard: Result<Piece, String>) -> Result<PieceView, Seq<char>> {
    match heard {
        Ok(piece) => Ok(piece@),
        Err(e) => Err(e@),
    }
}

/// How far a job has come after one call more, or the error that ended it.
pub open spec fn job_after(
    job: ChunkedView,
    heard: Result<PieceView, Seq<char>>,
) -> Result<ChunkedView, Seq<char>> {
    match heard {
        Ok(piece) => Ok(ChunkedView { pieces: job.pieces.push(piece), ..job }),
        Err(e) => Err(e),
    }
}

/// How far a job has come after all of these calls, or the error that ended it.
pub open spec fn job_after_all(
    job: ChunkedView,
    heard: Seq<Result<PieceView, Seq<char>>>,
) -> Result<ChunkedView, Seq<char>>
    decreases heard.len(),
{
    if heard.len() == 0 {
        Ok(job)
    } else {
        match job_after_all(job, heard.drop_last()) {
            Ok(next) => job_after(next, heard.last()),
            Err(e) => Err(e),
        }
    }
}

/// The first call that fails ends the run with its error, whatever other calls
/// would have said: nothing is tried again and no part of the text is kept.
pub proof fn law_first_failure_ends_run(
    job: ChunkedView,
    heard: Seq<Result<PieceView, Seq<char>>>,
    k: int,
)
    requires
        0 <= k < heard.len(),
        heard[k] is Err,
        forall|i: int| 0 <= i < k ==> (#[trigger] heard[i]) is Ok,
    ensures
        job_after_all(job, heard) == Err::<ChunkedView, Seq<char>>(heard[k]->Err_0),
    decreases heard.len(),
{
    let rest = heard.drop_last();
    if k < rest.len() {
        assert(rest[k] == heard[k]);
        law_first_failure_ends_run(job, rest, k);
    } else {
        assert forall|i: int| 0 <= i < rest.len() implies (#[trigger] rest[i]) is Ok by {
            assert(rest[i] == heard[i]);
        }
        law_all_heard(job, rest);
    }
}

/// Calls that succeed are kept one after another.
pub proof fn law_all_heard(job: ChunkedView, heard: Seq<Result<PieceView, Seq<char>>>)
    requires
        forall|i: int| 0 <= i < heard.len() ==> (#[trigger] heard[i]) is Ok,
    ensures
        job_after_all(job, heard) == Ok::<ChunkedView, Seq<char>>(
            ChunkedView {
                pieces: job.pieces + heard.map_values(
                    |h: Result<PieceView, Seq<char>>| h->Ok_0,
                ),
                ..job
            },
        ),
    decreases heard.len(),
{
    let piece = |h: Result<PieceView, Seq<char>>| h->Ok_0;
    if heard.len() == 0 {
        assert(job.pieces + heard.map_values(piece) =~= job.pieces);
    } else {
        let rest = heard.drop_last();
        law_all_heard(job, rest);
        assert((job.pieces + rest.map_values(piece)).push(piece(heard.last())) =~= job.pieces
            + heard.map_values(piece));
    }
}

/// Where the model stands after `n` of its calls.
proof fn lemma_next(len: int, size: int, n: int)
    requires
        0 <= len,
        0 <= size,
        size > 0 || len == 0,
        0 <= n <= call_count(len, size),
    ensures
        n < call_count(len, size) <==> (n == 0 || cut_start(size, n) < len),
        n < call_count(len, size) ==> 0 <= cut_start(size, n) <= len,
        cut_start(size, n + 1) == cut_start(size, n) + size,
        0 <= cut_start(size, n),
        n == 0 ==> cut_start(size, n) == 0,
{
    assert((n + 1) * size == n * size + size) by (nonlinear_arith);
    assert(0 <= n * size) by (nonlinear_arith)
        requires
            0 <= n,
            0 <= size,
    ;
    if size > 0 {
        lemma_cut_count(len, size, n);
        lemma_cut_count(len, size, 0);
        lemma_cut_count(len, size, 1);
    }
}

/// What a model is asked to hear of `samples`, call by call.
pub open spec fn heard<T>(samples: Seq<T>, size: int) -> Seq<Seq<T>> {
    Seq::new(
        call_count(samples.len() as int, size) as nat,
        |i: int| samples.subrange(cut_start(size, i), cut_end(samples.len() as int, size, i)),
    )
}

/// The pending range of a job is the next thing that the model is asked to hear,
/// and there is one until it has heard everything.
pub proof fn law_pending_is_heard<T>(job: ChunkedView, samples: Seq<T>)
    requires
        job.is_valid(),
        job.info.samples == samples.len(),
    ensures
        job.pending() is Some <==> job.pieces.len() < heard(samples, job.size).len(),
        job.pending() matches Some((start, end)) ==> samples.subrange(start, end) == heard(
            samples,
            job.size,
        )[job.pieces.len() as int],
{
    if job.size > 0 {
        lemma_cut_count(samples.len() as int, job.size, 0);
    }
}

/// The model hears the whole recording, in order and nothing twice.
pub proof fn law_chunks_cover<T>(info: AudioInfo, seconds: u64, samples: Seq<T>)
    requires
        info.can_chunk(seconds),
        samples.len() == info.samples,
    ensures
        heard(samples, info.samples_in(seconds)).flatten() == samples,
{
    let size = info.samples_in(seconds);
    let calls = heard(samples, size);
    lemma_size(info, seconds);
    if samples.len() <= size {
        lemma_next(samples.len() as int, size, 0);
        assert((0 + 1) * size == size) by (nonlinear_arith);
        assert(calls[0] =~= samples);
        assert(calls =~= seq![samples]);
        calls.lemma_flatten_singleton();
    } else {
        assert(calls =~= cuts(samples, size));
        law_cuts_cover(samples, size);
    }
}

/// No call hands the model more than the configured number of seconds.
pub proof fn law_chunks_bounded<T>(info: AudioInfo, seconds: u64, samples: Seq<T>, i: int)
    requires
        info.can_chunk(seconds),
        samples.len() == info.samples,
        0 <= i < heard(samples, info.samples_in(seconds)).len(),
    ensures
        heard(samples, info.samples_in(seconds))[i].len() <= info.samples_in(seconds),
{
    let size = info.samples_in(seconds);
    let len = samples.len() as int;
    lemma_size(info, seconds);
    lemma_next(len, size, i);
}

/// The times of chunk `i` are counted from the point of the recording at which
/// the chunk begins: as many samples as the model heard before it.
pub proof fn law_offset_is_heard<T>(info: AudioInfo, seconds: u64, samples: Seq<T>, i: int)
    requires
        info.can_chunk(seconds),
        samples.len() == info.samples,
        0 <= i < heard(samples, info.samples_in(seconds)).len(),
    ensures
        match chunk_offset(info, info.samples_in(seconds), i) {
            Some(offset) => offset.samples == heard(samples, info.samples_in(seconds)).take(
                i,
            ).flatten().len(),
            None => i == 0,
        },
{
    let size = info.samples_in(seconds);
    lemma_size(info, seconds);
    if samples.len() > size {
        assert(heard(samples, size) =~= cuts(samples, size));
        lemma_cut_count(samples.len() as int, size, i);
        lemma_cuts_prefix(samples, size, i);
        lemma_next(samples.len() as int, size, i);
    }
}

/// A recording that fits into one chunk is transcribed as the model heard it.
pub proof fn law_single_chunk(job: ChunkedView, piece: PieceView)
    requires
        job.info.samples <= job.size,
        job.pieces == seq![piece],
    ensures
        job.pending() is None,
        job.transcript().text == piece.text,
        job.transcript().tokens == piece.tokens.map_values(|t: RawTokenView| placed(t, None)),
{
    let none = Seq::<PieceView>::empty();
    lemma_full_text_push(none, piece);
    lemma_full_text_empty();
    assert(none.push(piece) =~= seq![piece]);
    assert(seq![piece].drop_last() =~= none);
    assert(full_text(none) + piece.text =~= piece.text);
    assert(placed_tokens(job.info, job.size, none) =~= Seq::<TokenView>::empty());
    assert(job.transcript().tokens =~= piece.tokens.map_values(
        |t: RawTokenView| placed(t, None),
    ));
}

/// Every token that the model reported is in the transcript, in the order in
/// which it was reported, and no other.
pub proof fn law_tokens_kept(info: AudioInfo, size: int, pieces: Seq<PieceView>)
    ensures
        placed_tokens(info, size, pieces).map_values(|t: TokenView| t.text)
            == pieces.map_values(
            |p: PieceView| p.tokens.map_values(|t: RawTokenView| t.text),
        ).flatten(),
    decreases pieces.len(),
{
    let texts = |p: PieceView| p.tokens.map_values(|t: RawTokenView| t.text);
    if pieces.len() == 0 {
        assert(pieces.map_values(texts) =~= Seq::empty());
        assert(placed_tokens(info, size, pieces).map_values(|t: TokenView| t.text) =~= Seq::<
            Seq<char>,
        >::empty());
    } else {
        let rest = pieces.drop_last();
        law_tokens_kept(info, size, rest);
        assert(pieces.map_values(texts) =~= rest.map_values(texts).push(texts(pieces.last())));
        rest.map_values(texts).lemma_flatten_push(texts(pieces.last()));
        assert(placed_tokens(info, size, pieces).map_values(|t: TokenView| t.text)
            =~= placed_tokens(info, size, rest).map_values(|t: TokenView| t.text) + texts(
            pieces.last(),
        ));
    }
}

proof fn lemma_size(info: AudioInfo, seconds: u64)
    ensures
        0 <= info.samples_in(seconds),
{
    info.lemma_rate();
    let rate = info.sample_rate * info.channels;
    assert(rate * seconds >= 0) by (nonlinear_arith)
        requires
            rate >= 0,
    ;
}

/// A second holds as many samples as the sample rate says for each channel.
pub proof fn law_samples_in(info: AudioInfo, seconds: u64)
    ensures
        info.samples_in(seconds) == info.sample_rate * info.channels * seconds,
        info.can_chunk(seconds) <==> {
            &&& info.sample_rate * info.channels * seconds <= usize::MAX
            &&& info.samples == 0 || info.sample_rate * info.channels * seconds > 0
        },
{
}

/// Call number `i` hears the samples from `i * size` on: `size` of them, or as
/// many as are left. There is a first call in any case, and a further one exactly
/// where samples are left for it.
pub proof fn law_pending_range(job: ChunkedView)
    requires
        job.is_valid(),
    ensures
        ({
            let start = job.pieces.len() * job.size;
            let len = job.info.samples as int;
            &&& job.pending() is Some <==> job.pieces.len() == 0 || start < len
            &&& job.pending() matches Some((from, to)) ==> {
                &&& from == start
                &&& len - start <= job.size ==> to == len
                &&& len - start > job.size ==> to == start + job.size
            }
        }),
{
    let n = job.pieces.len() as int;
    let len = job.info.samples as int;
    let size = job.size;
    assert((n + 1) * size == n * size + size) by (nonlinear_arith);
    assert(n == 0 ==> n * size == 0) by (nonlinear_arith);
    assert(n >= 1 ==> n * size >= size) by (nonlinear_arith)
        requires
            size >= 0,
    ;
    if size > 0 {
        lemma_cut_count(len, size, n);
    }
}

/// The text of a transcript is the texts of all its pieces that are not silent, in
/// their order and with one space between neighbours, whatever the recording: with
/// a space behind each, the last one included, it is all of them with a space
/// behind each.
pub proof fn law_transcript_text(job: ChunkedView)
    ensures
        ({
            let parts = job.pieces.map_values(|p: PieceView| p.text).filter(
                |t: Seq<char>| t.len() > 0,
            );
            &&& parts.len() == 0 ==> job.transcript().text.len() == 0
            &&& parts.len() > 0 ==> job.transcript().text.push(' ') == parts.map_values(
                |t: Seq<char>| t.push(' '),
            ).flatten()
        }),
{
    law_full_text(job.pieces);
}

/// The text of every piece stands in the text of the transcript.
pub proof fn law_piece_in_transcript(job: ChunkedView, i: int)
    requires
        0 <= i < job.pieces.len(),
    ensures
        exists|at: int|
            0 <= at && at + job.pieces[i].text.len() <= job.transcript().text.len()
                && #[trigger] job.transcript().text.subrange(at, at + job.pieces[i].text.len())
                == job.pieces[i].text,
{
    let part = job.pieces[i].text;
    law_texts_occur(job.pieces, i);
    let all = full_text(job.pieces);
    let at = choose|at: int|
        0 <= at && at + part.len() <= all.len() && #[trigger] all.subrange(at, at + part.len())
            == part;
    assert(job.transcript().text.subrange(at, at + part.len()) == part);
}

/// What one more piece does to a transcript: its text goes to the end, behind a
/// space where there is text on both sides, and its tokens go behind the others.
pub proof fn law_transcript_grows(job: ChunkedView, piece: PieceView)
    ensures
        ({
            let before = job.transcript();
            let after = ChunkedView { pieces: job.pieces.push(piece), ..job }.transcript();
            &&& before.text.len() > 0 && piece.text.len() > 0 ==> after.text == before.text
                + seq![' '] + piece.text
            &&& before.text.len() == 0 || piece.text.len() == 0 ==> after.text == before.text
                + piece.text
            &&& after.tokens.len() == before.tokens.len() + piece.tokens.len()
            &&& after.tokens.take(before.tokens.len() as int) == before.tokens
        }),
{
    lemma_full_text_push(job.pieces, piece);
    assert(job.pieces.push(piece).drop_last() =~= job.pieces);
    let before = job.transcript();
    let after = ChunkedView { pieces: job.pieces.push(piece), ..job }.transcript();
    assert(after.tokens.take(before.tokens.len() as int) =~= before.tokens);
}

proof fn lemma_placed_count(info: AudioInfo, size: int, pieces: Seq<PieceView>)
    ensures
        placed_tokens(info, size, pieces).len() == pieces.map_values(
            |p: PieceView| p.tokens,
        ).flatten().len(),
    decreases pieces.len(),
{
    let tokens = |p: PieceView| p.tokens;
    if pieces.len() == 0 {
        assert(pieces.map_values(tokens) =~= Seq::empty());
    } else {
        let rest = pieces.drop_last();
        lemma_placed_count(info, size, rest);
        assert(pieces.map_values(tokens) =~= rest.map_values(tokens).push(pieces.last().tokens));
        rest.map_values(tokens).lemma_flatten_push(pieces.last().tokens);
    }
}

proof fn lemma_placed_at(info: AudioInfo, size: int, pieces: Seq<PieceView>, i: int, k: int)
    requires
        0 <= i < pieces.len(),
        0 <= k < pieces[i].tokens.len(),
    ensures
        ({
            let n = pieces.take(i).map_values(|p: PieceView| p.tokens).flatten().len();
            &&& n + k < placed_tokens(info, size, pieces).len()
            &&& placed_tokens(info, size, pieces)[n + k] == placed(
                pieces[i].tokens[k],
                chunk_offset(info, size, i),
            )
        }),
    decreases pieces.len(),
{
    let rest = pieces.drop_last();
    if i == rest.len() {
        assert(pieces.take(i) =~= rest);
        lemma_placed_count(info, size, rest);
    } else {
        assert(rest.take(i) =~= pieces.take(i));
        lemma_placed_at(info, size, rest, i, k);
    }
}

/// Token `k` of chunk `i` stands in the transcript behind all tokens of the chunks
/// before, with its own text and with the bits that the model reported for its
/// start and its end. Both times are counted from the sample at which the chunk
/// begins, `i * size`, where the recording is longer than one chunk, and from the
/// start of the file where it is not. There are no other tokens.
pub proof fn law_token_times(job: ChunkedView, i: int, k: int)
    requires
        job.is_valid(),
        0 <= i < job.pieces.len(),
        0 <= k < job.pieces[i].tokens.len(),
        i == 0 || i * job.size < job.info.samples,
    ensures
        ({
            let n = job.pieces.take(i).map_values(|p: PieceView| p.tokens).flatten().len();
            let raw = job.pieces[i].tokens[k];
            let token = job.transcript().tokens[n + k];
            &&& n + k < job.transcript().tokens.len()
            &&& token.text == raw.text
            &&& token.start.bits == raw.start
            &&& token.end.bits == raw.end
            &&& job.info.samples > job.size ==> {
                &&& token.start.offset matches Some(from) && from.samples == i * job.size
                    && from.sample_rate == job.info.sample_rate && from.channels
                    == job.info.channels
                &&& token.end.offset matches Some(from) && from.samples == i * job.size
                    && from.sample_rate == job.info.sample_rate && from.channels
                    == job.info.channels
            }
            &&& job.info.samples <= job.size ==> {
                &&& token.start.offset is None
                &&& token.end.offset is None
            }
        }),
        job.transcript().tokens.len() == job.pieces.map_values(
            |p: PieceView| p.tokens,
        ).flatten().len(),
{
    lemma_placed_at(job.info, job.size, job.pieces, i, k);
    lemma_placed_count(job.info, job.size, job.pieces);
    assert(0 <= i * job.size) by (nonlinear_arith)
        requires
            0 <= i,
            0 <= job.size,
    ;
    assert(i == 0 ==> i * job.size == 0) by (nonlinear_arith);
}

/// A call that succeeds adds what was said; one that fails says why.
pub proof fn law_outcome(piece: Piece, cause: String)
    ensures
        outcome(Ok(piece)) == Ok::<PieceView, Seq<char>>(piece@),
        outcome(Err(cause)) == Err::<PieceView, Seq<char>>(cause@),
{
}

}
