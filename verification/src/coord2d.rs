//! Points of the plane and their sixteen-byte encoding.

use crate::binary64::{be_byte, be_bytes, from_be_bytes, is_nan, nan, read_be_bytes, same_number};
use vstd::prelude::*;
use vstd::std_specs::cmp::PartialEqSpecImpl;

verus! {

/// The error of building a value from a pattern that is a NaN.
#[derive(Debug, Clone, Copy, PartialEq, Eq)]
pub struct FloatIsNan;

/// A point of the plane. Each component is the bit pattern of a binary64
/// number, and neither is ever a NaN.
#[derive(Debug, Clone, Copy, Eq)]
pub struct Coord2D {
    x: u64,
    y: u64,
}

impl PartialEq for Coord2D {
    /// Two points are equal when their components are equal as numbers, so
    /// that a zero equals a zero of the other sign.
    fn eq(&self, other: &Self) -> (r: bool) {
        crate::binary64::eq(self.x, other.x) && crate::binary64::eq(self.y, other.y)
    }
}

impl PartialEqSpecImpl for Coord2D {
    open spec fn obeys_eq_spec() -> bool {
        true
    }

    open spec fn eq_spec(&self, other: &Self) -> bool {
        same_number(self.x_bits(), other.x_bits()) && same_number(self.y_bits(), other.y_bits())
    }
}

impl Coord2D {
    #[verifier::type_invariant]
    spec fn no_nan(self) -> bool {
        !nan(self.x) && !nan(self.y)
    }

    /// The pattern of the first component.
    pub closed spec fn x_bits(self) -> u64 {
        self.x
    }

    /// The pattern of the second component.
    pub closed spec fn y_bits(self) -> u64 {
        self.y
    }

    /// The point with the given patterns as its components.
    pub closed spec fn from_bits(x: u64, y: u64) -> Self {
        Coord2D { x, y }
    }

    /// What every point that executable code can hold satisfies.
    pub open spec fn wf(self) -> bool {
        !nan(self.x_bits()) && !nan(self.y_bits())
    }

    /// The point with the given components, unless one of them is a NaN.
    pub fn new(x: u64, y: u64) -> (r: Result<Self, FloatIsNan>)
        ensures
            r == if nan(x) || nan(y) {
                Err::<Self, FloatIsNan>(FloatIsNan)
            } else {
                Ok(Self::from_bits(x, y))
            },
    {
        if is_nan(x) || is_nan(y) {
            Err(FloatIsNan)
        } else {
            Ok(Self { x, y })
        }
    }

    pub fn x(&self) -> (r: u64)
        ensures
            r == self.x_bits(),
            !nan(r),
    {
        proof {
            use_type_invariant(self);
        }
        self.x
    }

    pub fn y(&self) -> (r: u64)
        ensures
            r == self.y_bits(),
            !nan(r),
    {
        proof {
            use_type_invariant(self);
        }
        self.y
    }

    /// The sixteen bytes that encode the point: `x`, then `y`, each
    /// big-endian.
    pub open spec fn encoding(self) -> Seq<u8> {
        be_bytes(self.x_bits()) + be_bytes(self.y_bits())
    }

    /// The point whose components the two halves of `bytes` spell.
    pub open spec fn decoding(bytes: Seq<u8>) -> Self {
        Self::from_bits(from_be_bytes(bytes.subrange(0, 8)), from_be_bytes(bytes.subrange(8, 16)))
    }

    /// The sixteen bytes of the point: `x`, then `y`, each big-endian.
    pub fn to_bytes(self) -> (bytes: [u8; 16])
        ensures
            bytes@ == self.encoding(),
            self.wf(),
    {
        proof {
            use_type_invariant(&self);
        }
        let mut result: [u8; 16] = [0; 16];
        let mut i: usize = 0;
        while i < 8
            invariant
                i <= 8,
                forall|k: int| 0 <= k < i ==> result@[k] == be_bytes(self.x)[k],
                forall|k: int| 0 <= k < i ==> result@[8 + k] == be_bytes(self.y)[k],
            decreases 8 - i,
        {
            result[i] = be_byte(self.x, i);
            result[i + 8] = be_byte(self.y, i);
            i = i + 1;
        }
        assert(result@ =~= self.encoding());
        result
    }

    /// Whether `bytes` are the encoding of a point: sixteen bytes, neither
    /// half the pattern of a NaN.
    pub open spec fn encodes_point(bytes: Seq<u8>) -> bool {
        &&& bytes.len() == 16
        &&& !nan(from_be_bytes(bytes.subrange(0, 8)))
        &&& !nan(from_be_bytes(bytes.subrange(8, 16)))
    }

    /// The point that sixteen bytes encode.
    pub fn from_bytes(x_y: &[u8]) -> (r: Self)
        requires
            Self::encodes_point(x_y@),
        ensures
            r == Self::decoding(x_y@),
            r.wf(),
    {
        let x: u64 = read_be_bytes(x_y, 0);
        let y: u64 = read_be_bytes(x_y, 8);
        Self { x, y }
    }

    /// The point that `bytes` encode, or `None` where they encode none.
    pub fn try_from_bytes(bytes: &[u8]) -> (r: Option<Self>)
        ensures
            r == if Self::encodes_point(bytes@) {
                Some(Self::decoding(bytes@))
            } else {
                None
            },
    {
        if bytes.len() != 16 {
            return None;
        }
        let x: u64 = read_be_bytes(bytes, 0);
        let y: u64 = read_be_bytes(bytes, 8);
        if is_nan(x) || is_nan(y) {
            None
        } else {
            Some(Self { x, y })
        }
    }

    /// The components of a point are the patterns it was made of.
    pub proof fn from_bits_components(x: u64, y: u64)
        ensures
            Self::from_bits(x, y).x_bits() == x,
            Self::from_bits(x, y).y_bits() == y,
    {
    }

    /// A point is made of its components.
    pub proof fn from_own_bits(c: Self)
        ensures
            Self::from_bits(c.x_bits(), c.y_bits()) == c,
    {
    }

    /// Decoding the bytes of a point gives the point back, bit for bit.
    pub proof fn decoding_inverts_encoding(c: Self)
        requires
            c.wf(),
        ensures
            Self::encodes_point(c.encoding()),
            Self::decoding(c.encoding()) == c,
    {
        let bytes = c.encoding();
        crate::binary64::be_bytes_round_trip(c.x);
        crate::binary64::be_bytes_round_trip(c.y);
        assert(bytes.subrange(0, 8) =~= be_bytes(c.x));
        assert(bytes.subrange(8, 16) =~= be_bytes(c.y));
    }

    /// Encoding the point that sixteen bytes spell gives the bytes back.
    pub proof fn encoding_inverts_decoding(bytes: Seq<u8>)
        requires
            bytes.len() == 16,
        ensures
            Self::decoding(bytes).encoding() == bytes,
    {
        crate::binary64::from_be_bytes_round_trip(bytes.subrange(0, 8));
        crate::binary64::from_be_bytes_round_trip(bytes.subrange(8, 16));
        assert(Self::decoding(bytes).encoding() =~= bytes);
    }
}

} // verus!
