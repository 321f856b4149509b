//! What an exciton is made of: the physical parameters of a run and the
//! record of how one exciton ended.

use crate::binary64::{be_byte, be_bytes, from_be_bytes, read_be_bytes};
use crate::coord2d::Coord2D;
use vstd::prelude::*;
use vstd::slice::slice_subrange;

verus! {

/// What a collision destroys.
#[derive(Debug, Clone, Copy, PartialEq, Eq, Structural)]
pub enum AnnihilationOutcome {
    /// Both excitons of a colliding pair are destroyed.
    Both,
    /// One exciton of a colliding pair, picked at random, is destroyed.
    One,
}

/// The physical parameters of a run. Each quantity is the bit pattern of a
/// binary64 number.
#[derive(Debug, Clone, Copy)]
pub struct ExcitonParameters {
    pub diffusivity_m2_per_s: u64,
    pub radiative_decay_rate_per_s: u64,
    pub non_radiative_decay_rate_per_s: u64,
    pub exciton_radius_m: u64,
    pub annihilation_outcome: AnnihilationOutcome,
}

/// How one exciton ended: when, where, and whether it emitted light.
#[derive(Debug, Clone, Copy)]
pub struct ExcitonBiography {
    pub destroyed_at_s: u64,
    pub destroyed_at_position: Coord2D,
    pub decayed_radiatively: bool,
}

impl ExcitonBiography {
    /// The twenty-four bytes that persist a record: the time, then the
    /// position. The flag is not part of them.
    pub open spec fn encoding(self) -> Seq<u8> {
        be_bytes(self.destroyed_at_s) + self.destroyed_at_position.encoding()
    }

    /// The record of a radiative decay that twenty-four bytes spell.
    pub open spec fn decoding(bytes: Seq<u8>) -> Self {
        ExcitonBiography {
            destroyed_at_s: from_be_bytes(bytes.subrange(0, 8)),
            destroyed_at_position: Coord2D::decoding(bytes.subrange(8, 24)),
            decayed_radiatively: true,
        }
    }

    /// Whether `bytes` persist a record: twenty-four bytes, the last sixteen
    /// of them a point.
    pub open spec fn encodes_record(bytes: Seq<u8>) -> bool {
        bytes.len() == 24 && Coord2D::encodes_point(bytes.subrange(8, 24))
    }

    /// The twenty-four bytes of the record: the time, then the position.
    pub fn to_bytes(self) -> (bytes: [u8; 24])
        ensures
            bytes@ == self.encoding(),
    {
        let coord_bytes: [u8; 16] = self.destroyed_at_position.to_bytes();
        let mut result: [u8; 24] = [0; 24];
        let mut i: usize = 0;
        while i < 8
            invariant
                i <= 8,
                forall|k: int| 0 <= k < i ==> result@[k] == be_bytes(self.destroyed_at_s)[k],
            decreases 8 - i,
        {
            result[i] = be_byte(self.destroyed_at_s, i);
            i = i + 1;
        }
        let mut j: usize = 0;
        while j < 16
            invariant
                j <= 16,
                forall|k: int| 0 <= k < 8 ==> result@[k] == be_bytes(self.destroyed_at_s)[k],
                forall|k: int| 0 <= k < j ==> result@[8 + k] == coord_bytes@[k],
            decreases 16 - j,
        {
            result[j + 8] = coord_bytes[j];
            j = j + 1;
        }
        assert(result@ =~= self.encoding());
        result
    }

    /// The record of a radiative decay that the bytes persist.
    pub fn from_bytes(bytes: &[u8]) -> (r: Self)
        requires
            Self::encodes_record(bytes@),
        ensures
            r == Self::decoding(bytes@),
    {
        ExcitonBiography {
            destroyed_at_s: read_be_bytes(bytes, 0),
            destroyed_at_position: Coord2D::from_bytes(slice_subrange(bytes, 8, 24)),
            decayed_radiatively: true,
        }
    }

    /// Decoding the bytes of a record gives back its time and its position,
    /// bit for bit, and so the whole record where it is one of a radiative
    /// decay.
    pub proof fn decoding_inverts_encoding(b: Self)
        requires
            b.destroyed_at_position.wf(),
        ensures
            Self::encodes_record(b.encoding()),
            Self::decoding(b.encoding()).destroyed_at_s == b.destroyed_at_s,
            Self::decoding(b.encoding()).destroyed_at_position == b.destroyed_at_position,
            b.decayed_radiatively ==> Self::decoding(b.encoding()) == b,
    {
        let bytes = b.encoding();
        crate::binary64::be_bytes_round_trip(b.destroyed_at_s);
        Coord2D::decoding_inverts_encoding(b.destroyed_at_position);
        assert(bytes.subrange(0, 8) =~= be_bytes(b.destroyed_at_s));
        assert(bytes.subrange(8, 24) =~= b.destroyed_at_position.encoding());
    }
}

} // verus!
