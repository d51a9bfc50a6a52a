//! Writing a placement and reading it back yields the placement again.

use crate::board::placement_wf;
use crate::fen::{
    decode_placement, digit_char, digit_value, empties, letter_piece, piece_letter,
    placement_prefix, placement_step, placement_text, rank_text, ranks_text, run_text,
    FenErrorView, FEN_NEW_RANK,
};
use crate::piece::Piece;
use vstd::prelude::*;

verus! {

/// The squares described after `n` more characters of `text`, when `sofar`
/// was described before them; or the first error among those characters.
pub open spec fn read_on(sofar: Seq<Piece>, text: Seq<char>, n: int) -> Result<
    Seq<Piece>,
    FenErrorView,
>
    decreases n,
{
    if n <= 0 {
        Ok(sofar)
    } else {
        match read_on(sofar, text, n - 1) {
            Ok(squares) => placement_step(squares, text[n - 1]),
            Err(e) => Err(e),
        }
    }
}

/// Reading a whole text on from `sofar`.
pub open spec fn read_all(sofar: Seq<Piece>, text: Seq<char>) -> Result<Seq<Piece>, FenErrorView> {
    read_on(sofar, text, text.len() as int)
}

/// Reading a field from its start is reading on from no squares at all.
pub proof fn lemma_prefix_is_read_on(field: Seq<char>, n: int)
    ensures
        placement_prefix(field, n) == read_on(Seq::empty(), field, n),
    decreases n,
{
    if n > 0 {
        lemma_prefix_is_read_on(field, n - 1);
    }
}

/// Reading two texts one after the other is reading the second on from
/// what the first describes.
pub proof fn lemma_read_concat(sofar: Seq<Piece>, a: Seq<char>, b: Seq<char>, k: int)
    requires
        0 <= k <= b.len(),
        read_all(sofar, a) is Ok,
    ensures
        read_on(sofar, a + b, a.len() + k) == read_on(read_all(sofar, a)->Ok_0, b, k),
    decreases k,
{
    if k == 0 {
        lemma_read_same_prefix(sofar, a, a + b, a.len() as int);
    } else {
        lemma_read_concat(sofar, a, b, k - 1);
        assert((a + b)[a.len() + k - 1] == b[k - 1]);
    }
}

/// Reading looks only at the characters it reads.
pub proof fn lemma_read_same_prefix(sofar: Seq<Piece>, a: Seq<char>, b: Seq<char>, n: int)
    requires
        0 <= n <= a.len(),
        n <= b.len(),
        forall|i: int| 0 <= i < n ==> a[i] == b[i],
    ensures
        read_on(sofar, a, n) == read_on(sofar, b, n),
    decreases n,
{
    if n > 0 {
        lemma_read_same_prefix(sofar, a, b, n - 1);
    }
}

/// The letter of a piece stands for that piece, and is no digit and no
/// separator.
pub proof fn lemma_letter_of_piece(p: Piece)
    requires
        p.wf(),
        !p.is_empty(),
    ensures
        letter_piece(piece_letter(p)) == Some(p),
{
    p.lemma_wf_cases();
}

/// The digit of a run stands for the length of the run, and is no letter.
pub proof fn lemma_digit_of_run(n: int)
    requires
        1 <= n <= 8,
    ensures
        digit_value(digit_char(n)) == Some(n),
        letter_piece(digit_char(n)) is None,
{
}

/// A run of empty squares that fits into its rank is read back from its
/// digit.
pub proof fn lemma_read_run(s: Seq<Piece>, start: int, run: int)
    requires
        placement_wf(s),
        0 <= run <= 8,
        0 <= start,
        start + run <= 64,
        start % 8 + run <= 8,
        forall|i: int| start <= i < start + run ==> s[i].is_empty(),
    ensures
        read_all(s.take(start), run_text(run)) == Ok::<Seq<Piece>, FenErrorView>(s.take(start + run)),
{
    let text = run_text(run);
    if run > 0 {
        lemma_digit_of_run(run);
        assert(text.len() == 1);
        assert(text[0] == digit_char(run));
        assert(read_on(s.take(start), text, 0) == Ok::<Seq<Piece>, FenErrorView>(s.take(start)));
        assert forall|i: int| start <= i < start + run implies s[i] == Piece::spec_none() by {
            Piece::lemma_none();
            Piece::lemma_bits_injective(s[i], Piece::spec_none());
        }
        assert(s.take(start) + empties(run) =~= s.take(start + run));
    }
}

/// One piece is read back from its letter.
pub proof fn lemma_read_letter(s: Seq<Piece>, at: int)
    requires
        placement_wf(s),
        0 <= at < 64,
        !s[at].is_empty(),
    ensures
        read_all(s.take(at), seq![piece_letter(s[at])]) == Ok::<Seq<Piece>, FenErrorView>(
            s.take(at + 1),
        ),
{
    let text = seq![piece_letter(s[at])];
    lemma_letter_of_piece(s[at]);
    assert(text[0] == piece_letter(s[at]));
    assert(read_on(s.take(at), text, 0) == Ok::<Seq<Piece>, FenErrorView>(s.take(at)));
    assert(s.take(at).push(s[at]) =~= s.take(at + 1));
}

/// The rest of a rank is read back: from column `c` on, with the `run`
/// empty squares before it still to be written.
pub proof fn lemma_read_rank(s: Seq<Piece>, r: int, c: int, run: int)
    requires
        placement_wf(s),
        0 <= r < 8,
        0 <= run <= c <= 8,
        forall|i: int| r * 8 + c - run <= i < r * 8 + c ==> s[i].is_empty(),
    ensures
        read_all(s.take(r * 8 + c - run), rank_text(s, r, c, run)) == Ok::<Seq<Piece>, FenErrorView>(
            s.take(r * 8 + 8),
        ),
    decreases 8 - c,
{
    let start = r * 8 + c - run;
    if c >= 8 {
        lemma_read_run(s, start, run);
    } else if s[r * 8 + c].is_empty() {
        lemma_read_rank(s, r, c + 1, run + 1);
    } else {
        let a = run_text(run);
        let b = seq![piece_letter(s[r * 8 + c])];
        let rest = rank_text(s, r, c + 1, 0);
        lemma_read_run(s, start, run);
        lemma_read_letter(s, r * 8 + c);
        lemma_read_rank(s, r, c + 1, 0);
        lemma_read_concat(s.take(start), a, b, b.len() as int);
        lemma_read_concat(s.take(start), a + b, rest, rest.len() as int);
    }
}

/// The first `n` ranks are read back.
pub proof fn lemma_read_ranks(s: Seq<Piece>, n: int)
    requires
        placement_wf(s),
        1 <= n <= 8,
    ensures
        read_all(Seq::empty(), ranks_text(s, n)) == Ok::<Seq<Piece>, FenErrorView>(s.take(n * 8)),
    decreases n,
{
    assert(s.take(0) =~= Seq::<Piece>::empty());
    if n == 1 {
        lemma_read_rank(s, 0, 0, 0);
    } else {
        let a = ranks_text(s, n - 1);
        let b = seq![FEN_NEW_RANK];
        let rest = rank_text(s, n - 1, 0, 0);
        lemma_read_ranks(s, n - 1);
        assert(b[0] == FEN_NEW_RANK);
        assert(read_on(s.take((n - 1) * 8), b, 0) == Ok::<Seq<Piece>, FenErrorView>(
            s.take((n - 1) * 8),
        ));
        assert(read_all(s.take((n - 1) * 8), b) == Ok::<Seq<Piece>, FenErrorView>(
            s.take((n - 1) * 8),
        ));
        lemma_read_rank(s, n - 1, 0, 0);
        lemma_read_concat(Seq::empty(), a, b, b.len() as int);
        lemma_read_concat(Seq::empty(), a + b, rest, rest.len() as int);
    }
}

/// Round trip: the placement field written for a placement is read back as
/// that placement.
pub proof fn lemma_placement_round_trip(s: Seq<Piece>)
    requires
        placement_wf(s),
    ensures
        decode_placement(placement_text(s)) == Ok::<Seq<Piece>, FenErrorView>(s),
{
    let text = placement_text(s);
    lemma_read_ranks(s, 8);
    lemma_prefix_is_read_on(text, text.len() as int);
    assert(s.take(64) =~= s);
}

} // verus!
