//! The packed piece encoding: presence, colour and kind as independent bit flags.

use vstd::prelude::*;

verus! {

/// One square's content: either the empty marker alone, or one colour flag
/// joined with one kind flag.
#[derive(Clone, Copy, Debug, PartialEq, Eq, Structural)]
pub struct Piece(u16);

/// `c` is exactly one of the two colour flags.
pub open spec fn is_color(c: u16) -> bool {
    c == Piece::WHITE || c == Piece::BLACK
}

/// `k` is exactly one of the six kind flags.
pub open spec fn is_kind(k: u16) -> bool {
    ||| k == Piece::PAWN
    ||| k == Piece::KNIGHT
    ||| k == Piece::BISHOP
    ||| k == Piece::ROOK
    ||| k == Piece::QUEEN
    ||| k == Piece::KING
}

/// The flag set `bits` is a legal encoding: the empty marker alone, or one
/// colour flag and one kind flag and nothing else.
pub open spec fn valid_bits(bits: u16) -> bool {
    ||| bits == Piece::NONE
    ||| {
        &&& is_color(bits & Piece::COLOR_MASK)
        &&& is_kind(bits & Piece::KIND_MASK)
        &&& bits == (bits & Piece::COLOR_MASK) | (bits & Piece::KIND_MASK)
    }
}

/// The colour that moves after `c`; meaningful for the two colour flags.
pub open spec fn opponent(c: u16) -> u16 {
    if c == Piece::WHITE {
        Piece::BLACK
    } else {
        Piece::WHITE
    }
}

/// How the flags combine: joining one colour with one kind yields a legal
/// encoding from which both can be read back, and which is not the empty
/// marker.
pub proof fn lemma_flags_compose(color: u16, kind: u16)
    requires
        is_color(color),
        is_kind(kind),
    ensures
        (color | kind) & Piece::COLOR_MASK == color,
        (color | kind) & Piece::KIND_MASK == kind,
        (color | kind) & Piece::NONE == 0,
        (color | kind) != Piece::NONE,
        valid_bits(color | kind),
{
    assert((color | kind) & 0x006 == color && (color | kind) & 0x1f8 == kind && (color | kind)
        & 0x001 == 0 && (color | kind) != 0x001) by (bit_vector)
        requires
            color == 0x002 || color == 0x004,
            kind == 0x008 || kind == 0x010 || kind == 0x020 || kind == 0x040 || kind == 0x080
                || kind == 0x100,
    ;
}

/// What a legal encoding looks like: the empty marker carries neither colour
/// nor kind; anything else carries exactly one of each and lacks the marker.
pub proof fn lemma_valid_bits_cases(bits: u16)
    requires
        valid_bits(bits),
    ensures
        bits == Piece::NONE ==> bits & Piece::COLOR_MASK == 0 && bits & Piece::KIND_MASK == 0,
        bits != Piece::NONE ==> is_color(bits & Piece::COLOR_MASK) && is_kind(
            bits & Piece::KIND_MASK,
        ) && bits == (bits & Piece::COLOR_MASK) | (bits & Piece::KIND_MASK),
        (bits & Piece::NONE != 0) <==> bits == Piece::NONE,
{
    assert(0x001u16 & 0x006 == 0 && 0x001u16 & 0x1f8 == 0 && 0x001u16 & 0x001 != 0)
        by (bit_vector);
    if bits != Piece::NONE {
        lemma_flags_compose(bits & Piece::COLOR_MASK, bits & Piece::KIND_MASK);
    }
}

impl Piece {
    /// The flag of an empty square.
    pub const NONE: u16 = 0x001;

    pub const WHITE: u16 = 0x002;

    pub const BLACK: u16 = 0x004;

    pub const PAWN: u16 = 0x008;

    pub const KNIGHT: u16 = 0x010;

    pub const BISHOP: u16 = 0x020;

    pub const ROOK: u16 = 0x040;

    pub const QUEEN: u16 = 0x080;

    pub const KING: u16 = 0x100;

    /// Both colour flags.
    pub const COLOR_MASK: u16 = 0x006;

    /// All six kind flags.
    pub const KIND_MASK: u16 = 0x1f8;

    /// The raw flag set.
    pub closed spec fn bits(self) -> u16 {
        self.0
    }

    /// The colour sub-field: `WHITE`, `BLACK`, or 0 on an empty square.
    pub open spec fn spec_color(self) -> u16 {
        self.bits() & Piece::COLOR_MASK
    }

    /// The kind sub-field: one kind flag, or 0 on an empty square.
    pub open spec fn spec_kind(self) -> u16 {
        self.bits() & Piece::KIND_MASK
    }

    /// The square holds no piece.
    pub open spec fn is_empty(self) -> bool {
        self.bits() == Piece::NONE
    }

    /// The encoding invariant.
    pub open spec fn wf(self) -> bool {
        valid_bits(self.bits())
    }

    /// The empty-square value.
    pub closed spec fn spec_none() -> Piece {
        Piece(Piece::NONE)
    }

    /// The piece of the given colour and kind.
    pub closed spec fn spec_new(color: u16, kind: u16) -> Piece {
        Piece(color | kind)
    }

    /// Two pieces with the same flags are the same piece.
    pub proof fn lemma_bits_injective(p: Piece, q: Piece)
        requires
            p.bits() == q.bits(),
        ensures
            p == q,
    {
    }

    /// The empty-square value is well formed and carries neither a colour
    /// nor a kind.
    pub proof fn lemma_none()
        ensures
            Piece::spec_none().bits() == Piece::NONE,
            Piece::spec_none().is_empty(),
            Piece::spec_none().wf(),
            Piece::spec_none().spec_color() == 0,
            Piece::spec_none().spec_kind() == 0,
    {
        lemma_valid_bits_cases(Piece::NONE);
    }

    /// A piece is built by joining the flags of its colour and its kind.
    /// Built from one colour and one kind it is well formed and occupied,
    /// and yields that colour and that kind again.
    pub proof fn lemma_new(color: u16, kind: u16)
        ensures
            Piece::spec_new(color, kind).bits() == color | kind,
            is_color(color) && is_kind(kind) ==> {
                &&& Piece::spec_new(color, kind).wf()
                &&& !Piece::spec_new(color, kind).is_empty()
                &&& Piece::spec_new(color, kind).spec_color() == color
                &&& Piece::spec_new(color, kind).spec_kind() == kind
            },
    {
        if is_color(color) && is_kind(kind) {
            lemma_flags_compose(color, kind);
        }
    }

    /// A well-formed piece is either the empty square, without colour and
    /// without kind, or the piece built from its own colour and kind.
    pub proof fn lemma_wf_cases(self)
        requires
            self.wf(),
        ensures
            self.is_empty() ==> self.spec_color() == 0 && self.spec_kind() == 0 && self
                == Piece::spec_none(),
            !self.is_empty() ==> is_color(self.spec_color()) && is_kind(self.spec_kind()) && self
                == Piece::spec_new(self.spec_color(), self.spec_kind()),
            (self.bits() & Piece::NONE != 0) <==> self.is_empty(),
    {
        lemma_valid_bits_cases(self.bits());
    }

    /// Builds the piece of the given colour and kind. The caller vouches for
    /// the two flags: `color` is one colour flag and `kind` one kind flag.
    pub fn new_unchecked(color: u16, kind: u16) -> (p: Piece)
        requires
            is_color(color),
            is_kind(kind),
        ensures
            p == Piece::spec_new(color, kind),
            p.bits() == color | kind,
            p.wf(),
            !p.is_empty(),
            p.spec_color() == color,
            p.spec_kind() == kind,
    {
        proof {
            lemma_flags_compose(color, kind);
        }
        Piece(color | kind)
    }

    /// The canonical empty-square value.
    pub fn none() -> (p: Piece)
        ensures
            p == Piece::spec_none(),
            p.bits() == Piece::NONE,
            p.is_empty(),
            p.wf(),
    {
        proof {
            lemma_valid_bits_cases(Piece::NONE);
        }
        Piece(Piece::NONE)
    }

    /// Validated construction from a raw flag set: `Some` exactly for the
    /// legal encodings.
    pub fn from_bits(bits: u16) -> (r: Option<Piece>)
        ensures
            r is Some <==> valid_bits(bits),
            r matches Some(p) ==> p.bits() == bits && p.wf(),
    {
        let color = bits & Piece::COLOR_MASK;
        let kind = bits & Piece::KIND_MASK;
        if bits == Piece::NONE {
            Some(Piece(bits))
        } else if (color == Piece::WHITE || color == Piece::BLACK) && (kind == Piece::PAWN || kind
            == Piece::KNIGHT || kind == Piece::BISHOP || kind == Piece::ROOK || kind
            == Piece::QUEEN || kind == Piece::KING) && bits == color | kind {
            Some(Piece(bits))
        } else {
            None
        }
    }

    /// True when the piece carries at least one of the flags in `flag`.
    pub fn is(&self, flag: u16) -> (r: bool)
        ensures
            r == (self.bits() & flag != 0),
    {
        self.0 & flag != 0
    }

    /// True when the piece carries every flag in `flags`.
    pub fn has(&self, flags: u16) -> (r: bool)
        ensures
            r == (self.bits() & flags == flags),
    {
        self.0 & flags == flags
    }

    /// The raw flag set.
    pub fn inner(&self) -> (r: u16)
        ensures
            r == self.bits(),
    {
        self.0
    }

    /// The colour sub-field.
    pub fn color(&self) -> (r: u16)
        ensures
            r == self.spec_color(),
    {
        self.0 & Piece::COLOR_MASK
    }

    /// The kind sub-field.
    pub fn kind(&self) -> (r: u16)
        ensures
            r == self.spec_kind(),
    {
        self.0 & Piece::KIND_MASK
    }

    /// True on the empty-square value.
    pub fn is_none(&self) -> (r: bool)
        ensures
            r == self.is_empty(),
    {
        self.0 == Piece::NONE
    }
}

impl From<Piece> for u16 {
    fn from(p: Piece) -> (r: u16) {
        p.0
    }
}

impl vstd::std_specs::convert::FromSpecImpl<Piece> for u16 {
    open spec fn obeys_from_spec() -> bool {
        true
    }

    open spec fn from_spec(p: Piece) -> u16 {
        p.bits()
    }
}

} // verus!
