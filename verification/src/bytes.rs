//! [`Bytes32`], the 32-byte value that names coins, puzzles and blocks.

use vstd::prelude::*;
use vstd::std_specs::cmp::PartialEqSpecImpl;

verus! {

/// A 32-byte hash or identifier.
#[derive(Debug, Clone, Copy, Eq)]
pub struct Bytes32 {
    /// The bytes, in wire order.
    pub bytes: [u8; 32],
}

impl Bytes32 {
    /// Wraps 32 bytes.
    pub fn new(bytes: [u8; 32]) -> (id: Self)
        ensures
            id.bytes == bytes,
    {
        Bytes32 { bytes }
    }

    /// The wrapped bytes.
    pub fn to_bytes(self) -> (bytes: [u8; 32])
        ensures
            bytes == self.bytes,
    {
        self.bytes
    }

    /// The first eight bytes read as a big-endian number.
    pub open spec fn spec_prefix(self) -> int {
        let b = self.bytes@;
        b[0] * 0x100_0000_0000_0000 + b[1] * 0x1_0000_0000_0000 + b[2] * 0x100_0000_0000 + b[3]
            * 0x1_0000_0000 + b[4] * 0x100_0000 + b[5] * 0x1_0000 + b[6] * 0x100 + b[7]
    }

    /// The first eight bytes read as a big-endian number fit in 64 bits.
    pub proof fn lemma_prefix_bound(self)
        ensures
            0 <= self.spec_prefix() <= u64::MAX,
    {
    }

    /// The first eight bytes read as a big-endian number.
    pub fn prefix(&self) -> (prefix: u64)
        ensures
            prefix == self.spec_prefix(),
    {
        let b = &self.bytes;
        (b[0] as u64) * 0x100_0000_0000_0000 + (b[1] as u64) * 0x1_0000_0000_0000 + (b[2] as u64)
            * 0x100_0000_0000 + (b[3] as u64) * 0x1_0000_0000 + (b[4] as u64) * 0x100_0000 + (
        b[5] as u64) * 0x1_0000 + (b[6] as u64) * 0x100 + (b[7] as u64)
    }
}

impl Default for Bytes32 {
    /// The all-zero value.
    fn default() -> (id: Self)
        ensures
            id.bytes@ == Seq::new(32, |i: int| 0u8),
    {
        let id = Bytes32 { bytes: [0u8; 32] };
        assert(id.bytes@ =~= Seq::new(32, |i: int| 0u8));
        id
    }
}

impl PartialEq for Bytes32 {
    fn eq(&self, other: &Self) -> (equal: bool) {
        let mut i: usize = 0;
        while i < 32
            invariant
                i <= 32,
                forall|j: int| 0 <= j < i ==> self.bytes@[j] == other.bytes@[j],
            decreases 32 - i,
        {
            if self.bytes[i] != other.bytes[i] {
                return false;
            }
            i += 1;
        }
        assert(self.bytes =~= other.bytes);
        true
    }
}

impl PartialEqSpecImpl for Bytes32 {
    open spec fn obeys_eq_spec() -> bool {
        true
    }

    open spec fn eq_spec(&self, other: &Self) -> bool {
        *self == *other
    }
}

} // verus!
