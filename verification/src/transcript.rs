//! What a model makes of a piece of audio, and what the server makes of all the
//! pieces.
//!
//! A model gives times as 32-bit floating-point seconds, counted from the start
//! of the piece that it heard. A time is kept here as the bit pattern of that
//! number beside the place of the piece in the file; whoever prints it does the
//! addition.

use vstd::prelude::*;

verus! {

/// A token as a model reports it, with the bit patterns of its two times.
pub struct RawToken {
    pub text: String,
    pub start: u32,
    pub end: u32,
}

/// A [`RawToken`] with its text as a sequence of characters.
#[verifier::ext_equal]
pub struct RawTokenView {
    pub text: Seq<char>,
    pub start: u32,
    pub end: u32,
}

impl View for RawToken {
    type V = RawTokenView;

    open spec fn view(&self) -> RawTokenView {
        RawTokenView { text: self.text@, start: self.start, end: self.end }
    }
}

/// What a model makes of one piece of audio.
pub struct Piece {
    pub text: String,
    pub tokens: Vec<RawToken>,
}

/// A [`Piece`] with its texts as sequences of characters.
#[verifier::ext_equal]
pub struct PieceView {
    pub text: Seq<char>,
    pub tokens: Seq<RawTokenView>,
}

impl View for Piece {
    type V = PieceView;

    open spec fn view(&self) -> PieceView {
        PieceView { text: self.text@, tokens: self.tokens@.map_values(|t: RawToken| t@) }
    }
}

/// A place in a file: `samples / (sample_rate * channels)` seconds.
#[derive(Debug, Clone, Copy, PartialEq, Eq, Structural)]
pub struct Offset {
    pub samples: usize,
    pub sample_rate: u32,
    pub channels: u16,
}

/// A time in a file: the number of seconds with this bit pattern, counted from
/// `offset`, or from the start of the file where there is no offset.
#[derive(Debug, Clone, Copy, PartialEq, Eq, Structural)]
pub struct Stamp {
    pub bits: u32,
    pub offset: Option<Offset>,
}

/// A token of a transcript, with its times in the whole file.
pub struct Token {
    pub text: String,
    pub start: Stamp,
    pub end: Stamp,
}

/// A [`Token`] with its text as a sequence of characters.
#[verifier::ext_equal]
pub struct TokenView {
    pub text: Seq<char>,
    pub start: Stamp,
    pub end: Stamp,
}

impl View for Token {
    type V = TokenView;

    open spec fn view(&self) -> TokenView {
        TokenView { text: self.text@, start: self.start, end: self.end }
    }
}

/// The transcript of a file.
pub struct Transcript {
    pub text: String,
    pub tokens: Vec<Token>,
}

/// A [`Transcript`] with its texts as sequences of characters.
#[verifier::ext_equal]
pub struct TranscriptView {
    pub text: Seq<char>,
    pub tokens: Seq<TokenView>,
}

impl View for Transcript {
    type V = TranscriptView;

    open spec fn view(&self) -> TranscriptView {
        TranscriptView { text: self.text@, tokens: self.tokens@.map_values(|t: Token| t@) }
    }
}

/// A raw token whose times are counted from `offset`.
pub open spec fn placed(token: RawTokenView, offset: Option<Offset>) -> TokenView {
    TokenView {
        text: token.text,
        start: Stamp { bits: token.start, offset },
        end: Stamp { bits: token.end, offset },
    }
}

impl RawToken {
    /// The token with its times counted from `offset`.
    pub fn place(&self, offset: Option<Offset>) -> (r: Token)
        ensures
            r@ == placed(self@, offset),
    {
        Token {
            text: self.text.clone(),
            start: Stamp { bits: self.start, offset },
            end: Stamp { bits: self.end, offset },
        }
    }
}

/// `parts` one after another, with a single space between neighbours.
pub open spec fn joined(parts: Seq<Seq<char>>) -> Seq<char>
    decreases parts.len(),
{
    if parts.len() == 0 {
        Seq::empty()
    } else if parts.len() == 1 {
        parts[0]
    } else {
        joined(parts.drop_last()) + seq![' '] + parts.last()
    }
}

/// The texts of `pieces` that are not empty.
pub open spec fn spoken(pieces: Seq<PieceView>) -> Seq<Seq<char>> {
    pieces.map_values(|p: PieceView| p.text).filter(|t: Seq<char>| t.len() > 0)
}

/// The text of a file whose pieces were heard as `pieces`: the texts of those
/// that are not silent, with a space between neighbours.
pub open spec fn full_text(pieces: Seq<PieceView>) -> Seq<char> {
    joined(spoken(pieces))
}

proof fn lemma_joined_empty(parts: Seq<Seq<char>>)
    requires
        forall|i: int| 0 <= i < parts.len() ==> (#[trigger] parts[i]).len() > 0,
    ensures
        joined(parts).len() == 0 <==> parts.len() == 0,
{
}

/// No pieces make no text.
pub proof fn lemma_full_text_empty()
    ensures
        full_text(Seq::empty()) == Seq::<char>::empty(),
{
    assert(Seq::<PieceView>::empty().map_values(|p: PieceView| p.text) =~= Seq::<
        Seq<char>,
    >::empty());
    reveal(Seq::filter);
}

/// One piece more: its text goes to the end, behind a space where there is text
/// on both sides of it.
pub proof fn lemma_full_text_push(pieces: Seq<PieceView>, piece: PieceView)
    ensures
        full_text(pieces.push(piece)) == if full_text(pieces).len() > 0 && piece.text.len() > 0 {
            full_text(pieces) + seq![' '] + piece.text
        } else {
            full_text(pieces) + piece.text
        },
{
    let texts = pieces.map_values(|p: PieceView| p.text);
    let more = pieces.push(piece).map_values(|p: PieceView| p.text);
    let heard = |t: Seq<char>| t.len() > 0;
    assert(more =~= texts.push(piece.text));
    assert(more.drop_last() =~= texts);
    reveal(Seq::filter);
    broadcast use Seq::lemma_filter_pred;
    assert(forall|i: int| 0 <= i < spoken(pieces).len() ==> heard(#[trigger] spoken(pieces)[i]));
    lemma_joined_empty(spoken(pieces));
    if piece.text.len() > 0 {
        assert(spoken(pieces.push(piece)) =~= spoken(pieces).push(piece.text));
        assert(spoken(pieces).push(piece.text).drop_last() =~= spoken(pieces));
        if spoken(pieces).len() == 0 {
            assert(full_text(pieces) + piece.text =~= piece.text);
        }
    } else {
        assert(spoken(pieces.push(piece)) =~= spoken(pieces));
        assert(full_text(pieces) + piece.text =~= full_text(pieces));
    }
}

/// A raw token is viewed as what its fields hold.
pub proof fn law_raw_token_view(token: RawToken)
    ensures
        token@.text == token.text@,
        token@.start == token.start,
        token@.end == token.end,
{
}

/// A piece is viewed as what its fields hold.
pub proof fn law_piece_view(piece: Piece)
    ensures
        piece@.text == piece.text@,
        piece@.tokens.len() == piece.tokens@.len(),
        forall|i: int|
            0 <= i < piece.tokens@.len() ==> {
                &&& (#[trigger] piece@.tokens[i]).text == piece.tokens@[i].text@
                &&& piece@.tokens[i].start == piece.tokens@[i].start
                &&& piece@.tokens[i].end == piece.tokens@[i].end
            },
{
}

/// A token is viewed as what its fields hold.
pub proof fn law_token_view(token: Token)
    ensures
        token@.text == token.text@,
        token@.start == token.start,
        token@.end == token.end,
{
}

/// A transcript is viewed as what its fields hold.
pub proof fn law_transcript_view(transcript: Transcript)
    ensures
        transcript@.text == transcript.text@,
        transcript@.tokens.len() == transcript.tokens@.len(),
        forall|i: int|
            0 <= i < transcript.tokens@.len() ==> {
                &&& (#[trigger] transcript@.tokens[i]).text == transcript.tokens@[i].text@
                &&& transcript@.tokens[i].start == transcript.tokens@[i].start
                &&& transcript@.tokens[i].end == transcript.tokens@[i].end
            },
{
}

/// Placing a token keeps its text and the bits of its two times, and counts both
/// from the given offset.
pub proof fn law_placed(token: RawTokenView, offset: Option<Offset>)
    ensures
        placed(token, offset).text == token.text,
        placed(token, offset).start.bits == token.start,
        placed(token, offset).end.bits == token.end,
        placed(token, offset).start.offset == offset,
        placed(token, offset).end.offset == offset,
{
}

proof fn lemma_joined_flat(parts: Seq<Seq<char>>)
    requires
        parts.len() > 0,
    ensures
        joined(parts).push(' ') == parts.map_values(|t: Seq<char>| t.push(' ')).flatten(),
    decreases parts.len(),
{
    let ended = |t: Seq<char>| t.push(' ');
    if parts.len() == 1 {
        assert(parts.map_values(ended) =~= seq![parts[0].push(' ')]);
        parts.map_values(ended).lemma_flatten_singleton();
    } else {
        let rest = parts.drop_last();
        lemma_joined_flat(rest);
        assert(parts.map_values(ended) =~= rest.map_values(ended).push(parts.last().push(' ')));
        rest.map_values(ended).lemma_flatten_push(parts.last().push(' '));
        assert(joined(parts).push(' ') =~= joined(rest).push(' ') + parts.last().push(' '));
    }
}

/// The text of some pieces is the texts of those that are not silent, one after
/// another: with a space behind each, the last one included, it is all of them
/// with a space behind each.
pub proof fn law_full_text(pieces: Seq<PieceView>)
    ensures
        ({
            let parts = pieces.map_values(|p: PieceView| p.text).filter(
                |t: Seq<char>| t.len() > 0,
            );
            &&& parts.len() == 0 ==> full_text(pieces).len() == 0
            &&& parts.len() > 0 ==> full_text(pieces).push(' ') == parts.map_values(
                |t: Seq<char>| t.push(' '),
            ).flatten()
        }),
{
    if spoken(pieces).len() > 0 {
        lemma_joined_flat(spoken(pieces));
    }
}

/// The text of every piece stands in the text of them all.
pub proof fn law_texts_occur(pieces: Seq<PieceView>, i: int)
    requires
        0 <= i < pieces.len(),
    ensures
        exists|at: int|
            0 <= at && at + pieces[i].text.len() <= full_text(pieces).len()
                && #[trigger] full_text(pieces).subrange(at, at + pieces[i].text.len())
                == pieces[i].text,
    decreases pieces.len(),
{
    let rest = pieces.drop_last();
    let all = full_text(pieces);
    let part = pieces[i].text;
    assert(rest.push(pieces.last()) =~= pieces);
    lemma_full_text_push(rest, pieces.last());
    if i == rest.len() {
        let at = all.len() - part.len();
        assert(all.subrange(at, at + part.len()) =~= part);
    } else {
        law_texts_occur(rest, i);
        let before = full_text(rest);
        let at = choose|at: int|
            0 <= at && at + part.len() <= before.len() && #[trigger] before.subrange(
                at,
                at + part.len(),
            ) == part;
        assert(all.subrange(at, at + part.len()) =~= before.subrange(at, at + part.len()));
    }
}

}
