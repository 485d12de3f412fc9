//! Single-precision numbers, held by their bit patterns.

use vstd::prelude::*;

verus! {

/// A single-precision number (IEEE 754 binary32), held by its bit pattern: 1 sign bit, 8 bits of
/// exponent, 23 bits of fraction. The operator `==` compares patterns; [`Single::equals`] compares
/// numbers.
#[derive(Clone, Copy, Debug, PartialEq, Eq, Structural)]
pub struct Single {
    pub bits: u32,
}

/// The pattern of infinity: the exponent's bits all set. Above it lie the patterns of NaN.
pub const INFINITY_BITS: u32 = 0x7f80_0000;

/// The sign bit.
pub const SIGN_BIT: u32 = 0x8000_0000;

impl Single {
    /// The pattern without its sign.
    pub open spec fn magnitude(self) -> int {
        if self.bits >= SIGN_BIT {
            self.bits - SIGN_BIT
        } else {
            self.bits as int
        }
    }

    pub open spec fn nan(self) -> bool {
        self.magnitude() > INFINITY_BITS
    }

    /// Whether the numbers are equal: NaN equals nothing, and the two zeros equal each other.
    pub open spec fn same_number(self, other: Single) -> bool {
        &&& !self.nan()
        &&& !other.nan()
        &&& self.bits == other.bits || (self.magnitude() == 0 && other.magnitude() == 0)
    }

    /// Whether the number is greater than 0.
    pub open spec fn positive(self) -> bool {
        0 < self.bits <= INFINITY_BITS
    }

    fn strip_sign(self) -> (magnitude: u32)
        ensures
            magnitude == self.magnitude(),
    {
        if self.bits >= SIGN_BIT {
            self.bits - SIGN_BIT
        } else {
            self.bits
        }
    }

    /// Whether the numbers are equal.
    pub fn equals(self, other: Single) -> (equal: bool)
        ensures
            equal == self.same_number(other),
    {
        let (a, b) = (self.strip_sign(), other.strip_sign());
        a <= INFINITY_BITS && b <= INFINITY_BITS && (self.bits == other.bits || (a == 0 && b == 0))
    }

    /// Whether the number is greater than 0.
    pub fn is_positive(self) -> (positive: bool)
        ensures
            positive == self.positive(),
    {
        0 < self.bits && self.bits <= INFINITY_BITS
    }
}

/// A rectangle by its four edges.
#[derive(Clone, Copy, Debug, PartialEq, Eq, Structural)]
pub struct Edges {
    pub left: Single,
    pub top: Single,
    pub right: Single,
    pub bottom: Single,
}

impl Edges {
    /// Whether all four edges are NaN.
    pub open spec fn all_nan(self) -> bool {
        &&& self.left.nan()
        &&& self.top.nan()
        &&& self.right.nan()
        &&& self.bottom.nan()
    }

    /// Whether no edge is NaN.
    pub open spec fn no_nan(self) -> bool {
        &&& !self.left.nan()
        &&& !self.top.nan()
        &&& !self.right.nan()
        &&& !self.bottom.nan()
    }

    /// Whether each edge is the same number.
    pub open spec fn same_rect(self, other: Edges) -> bool {
        &&& self.left.same_number(other.left)
        &&& self.top.same_number(other.top)
        &&& self.right.same_number(other.right)
        &&& self.bottom.same_number(other.bottom)
    }

    /// Whether each edge is the same number.
    pub fn equals(self, other: Edges) -> (equal: bool)
        ensures
            equal == self.same_rect(other),
    {
        self.left.equals(other.left) && self.top.equals(other.top) && self.right.equals(other.right)
            && self.bottom.equals(other.bottom)
    }
}

/// Reads the four edges of `egui::Rect::NAN` with `left`, `top`, `right` and `bottom`. Each is NaN;
/// which of the patterns of NaN it is depends on the machine, and nothing is said of it.
#[verifier::external_body]
pub(crate) fn nan_edges() -> (edges: Edges)
    ensures
        edges.all_nan(),
{
    let nan = egui::Rect::NAN;
    Edges {
        left: Single { bits: nan.left().to_bits() },
        top: Single { bits: nan.top().to_bits() },
        right: Single { bits: nan.right().to_bits() },
        bottom: Single { bits: nan.bottom().to_bits() },
    }
}

/// NaN has all bits of the exponent set and a fraction that is not 0.
pub proof fn law_nan_pattern(number: Single)
    ensures
        number.nan() <==> number.bits & 0x7f80_0000 == 0x7f80_0000 && number.bits & 0x007f_ffff != 0,
{
    let bits = number.bits;
    assert(bits >= 0x8000_0000 ==> ((bits - 0x8000_0000 > 0x7f80_0000) <==> (bits & 0x7f80_0000
        == 0x7f80_0000 && bits & 0x007f_ffff != 0))) by (bit_vector);
    assert(bits < 0x8000_0000 ==> ((bits > 0x7f80_0000) <==> (bits & 0x7f80_0000 == 0x7f80_0000
        && bits & 0x007f_ffff != 0))) by (bit_vector);
}

/// A number is greater than 0 where it has no sign, is not 0 and is not NaN.
pub proof fn law_positive_pattern(number: Single)
    ensures
        number.positive() <==> number.bits & 0x8000_0000 == 0 && number.bits != 0 && !number.nan(),
{
    let bits = number.bits;
    assert(bits & 0x8000_0000 == 0 <==> bits < 0x8000_0000) by (bit_vector);
}

/// NaN equals nothing, itself included. Any other number equals itself and, but for the two zeros,
/// no other pattern.
pub proof fn law_equal_numbers(a: Single, b: Single)
    ensures
        a.nan() || b.nan() ==> !a.same_number(b),
        !a.nan() && !b.nan() && a.bits == b.bits ==> a.same_number(b),
        !a.nan() && !b.nan() && a.bits != b.bits ==> (a.same_number(b) <==> (a.bits | b.bits)
            & 0x7fff_ffff == 0),
{
    let (p, q) = (a.bits, b.bits);
    assert((p | q) & 0x7fff_ffff == 0 <==> (p == 0 || p == 0x8000_0000) && (q == 0 || q
        == 0x8000_0000)) by (bit_vector);
}

/// Rectangles are the same just where no edge tells them apart, and a rectangle of NaN has four
/// edges of NaN.
pub proof fn law_same_rectangles(a: Edges, b: Edges)
    ensures
        !a.left.same_number(b.left) ==> !a.same_rect(b),
        !a.top.same_number(b.top) ==> !a.same_rect(b),
        !a.right.same_number(b.right) ==> !a.same_rect(b),
        !a.bottom.same_number(b.bottom) ==> !a.same_rect(b),
        !a.same_rect(b) ==> !(a.left.same_number(b.left) && a.top.same_number(b.top)
            && a.right.same_number(b.right) && a.bottom.same_number(b.bottom)),
        a.all_nan() <==> a.left.nan() && a.top.nan() && a.right.nan() && a.bottom.nan(),
        a.no_nan() <==> a.same_rect(a),
{
}

} // verus!
