//! Little-endian numbers in raw memory.

use vstd::prelude::*;

verus! {

/// The number that bytes stand for, the lowest byte first.
pub open spec fn le_value(b: Seq<u8>) -> nat
    decreases b.len(),
{
    if b.len() == 0 {
        0
    } else {
        b[0] as nat + 256 * le_value(b.skip(1))
    }
}

/// The number in `n` bytes from an offset on.
pub open spec fn le_at(b: Seq<u8>, offset: int, n: int) -> nat {
    le_value(b.subrange(offset, offset + n))
}

proof fn lemma_le_split(b: Seq<u8>, offset: int, n: int)
    requires
        0 <= offset,
        0 < n,
        offset + n <= b.len(),
    ensures
        le_at(b, offset, n) == b[offset] as nat + 256 * le_at(b, offset + 1, n - 1),
{
    assert(b.subrange(offset, offset + n).skip(1) =~= b.subrange(offset + 1, offset + n));
}

/// A number of two bytes or more, with its two lowest bytes apart.
pub proof fn lemma_le_two(b: Seq<u8>, offset: int, n: int)
    requires
        0 <= offset,
        2 <= n,
        offset + n <= b.len(),
    ensures
        le_at(b, offset, 2) == b[offset] as nat + 256 * b[offset + 1] as nat,
        le_at(b, offset, n) == le_at(b, offset, 2) + 65536 * le_at(b, offset + 2, n - 2),
{
    lemma_le_split(b, offset, 2);
    lemma_le_split(b, offset + 1, 1);
    lemma_le_split(b, offset, n);
    lemma_le_split(b, offset + 1, n - 1);
    assert(b.subrange(offset + 2, offset + 2) =~= Seq::<u8>::empty());
}

/// Reads two bytes.
pub fn read_u16(b: &[u8], offset: usize) -> (r: u16)
    requires
        offset + 2 <= b@.len(),
    ensures
        r == le_at(b@, offset as int, 2),
{
    proof {
        lemma_le_two(b@, offset as int, 2);
    }
    b[offset] as u16 + 256 * b[offset + 1] as u16
}

/// Reads four bytes.
pub fn read_u32(b: &[u8], offset: usize) -> (r: u32)
    requires
        offset + 4 <= b@.len(),
    ensures
        r == le_at(b@, offset as int, 4),
{
    assert(b@.len() == b.len());
    let low = read_u16(b, offset);
    let high = read_u16(b, offset + 2);
    proof {
        lemma_le_two(b@, offset as int, 4);
    }
    low as u32 + 65536 * high as u32
}

/// Reads eight bytes.
pub fn read_u64(b: &[u8], offset: usize) -> (r: u64)
    requires
        offset + 8 <= b@.len(),
    ensures
        r == le_at(b@, offset as int, 8),
{
    assert(b@.len() == b.len());
    let low = read_u32(b, offset);
    let high = read_u32(b, offset + 4);
    proof {
        lemma_le_two(b@, offset as int, 8);
        lemma_le_two(b@, offset + 2, 6);
        lemma_le_two(b@, offset as int, 4);
    }
    low as u64 + 0x1_0000_0000 * high as u64
}

/// The size of an address on the machine that the memory comes from.
#[derive(Clone, Copy, Debug, PartialEq, Eq, Structural)]
pub enum PointerWidth {
    Four,
    Eight,
}

impl PointerWidth {
    /// The size in bytes.
    pub open spec fn size(self) -> int {
        match self {
            PointerWidth::Four => 4,
            PointerWidth::Eight => 8,
        }
    }

    /// The size in bytes.
    pub fn bytes(self) -> (r: usize)
        ensures
            r == self.size(),
    {
        match self {
            PointerWidth::Four => 4,
            PointerWidth::Eight => 8,
        }
    }
}

/// Reads an address.
pub fn read_pointer(b: &[u8], offset: usize, width: PointerWidth) -> (r: u64)
    requires
        offset + width.size() <= b@.len(),
    ensures
        r == le_at(b@, offset as int, width.size()),
{
    match width {
        PointerWidth::Four => read_u32(b, offset) as u64,
        PointerWidth::Eight => read_u64(b, offset),
    }
}

/// The UTF-16 units in the first `2 * n` bytes.
pub open spec fn le_units(b: Seq<u8>, n: nat) -> Seq<u16> {
    Seq::new(n, |i: int| le_at(b, 2 * i, 2) as u16)
}

/// Reads UTF-16 units.
pub fn read_units(b: &[u8], n: usize) -> (r: Vec<u16>)
    requires
        2 * n <= b@.len(),
    ensures
        r@ == le_units(b@, n as nat),
{
    let mut r: Vec<u16> = Vec::new();
    let mut i: usize = 0;
    while i < n
        invariant
            i <= n,
            2 * n <= b@.len(),
            r@ == le_units(b@, i as nat),
        decreases n - i,
    {
        assert(b@.len() == b.len());
        r.push(read_u16(b, 2 * i));
        assert(r@ =~= le_units(b@, (i + 1) as nat));
        i = i + 1;
    }
    r
}

/// The bytes of UTF-16 units, the lower byte of each first.
pub open spec fn unit_bytes(u: Seq<u16>) -> Seq<u8> {
    Seq::new(
        2 * u.len(),
        |i: int|
            if i % 2 == 0 {
                (u[i / 2] % 256) as u8
            } else {
                (u[i / 2] / 256) as u8
            },
    )
}

/// Units that were laid out in memory are read back as they were.
pub proof fn law_units_read_back(u: Seq<u16>)
    ensures
        le_units(unit_bytes(u), u.len()) == u,
{
    let b = unit_bytes(u);
    assert forall|i: int| 0 <= i < u.len() implies le_units(b, u.len())[i] == u[i] by {
        lemma_le_two(b, 2 * i, 2);
        assert(b[2 * i] == (u[i] % 256) as u8);
        assert(b[2 * i + 1] == (u[i] / 256) as u8);
    }
    assert(le_units(b, u.len()) =~= u);
}

/// Numbers are read with their lowest byte first: each byte counts 256 times as much
/// as the one before it.
pub proof fn law_bytes_count_from_the_lowest(b: Seq<u8>, offset: int)
    requires
        0 <= offset,
    ensures
        offset + 2 <= b.len() ==> le_at(b, offset, 2) == b[offset] + 0x100 * b[offset + 1],
        offset + 4 <= b.len() ==> le_at(b, offset, 4) == b[offset] + 0x100 * b[offset + 1]
            + 0x1_0000 * b[offset + 2] + 0x100_0000 * b[offset + 3],
        offset + 8 <= b.len() ==> le_at(b, offset, 8) == b[offset] + 0x100 * b[offset + 1]
            + 0x1_0000 * b[offset + 2] + 0x100_0000 * b[offset + 3] + 0x1_0000_0000 * b[offset + 4]
            + 0x100_0000_0000 * b[offset + 5] + 0x1_0000_0000_0000 * b[offset + 6]
            + 0x100_0000_0000_0000 * b[offset + 7],
{
    if offset + 2 <= b.len() {
        lemma_le_two(b, offset, 2);
    }
    if offset + 4 <= b.len() {
        lemma_le_two(b, offset, 4);
        lemma_le_two(b, offset + 2, 2);
    }
    if offset + 8 <= b.len() {
        lemma_le_two(b, offset, 8);
        lemma_le_two(b, offset + 2, 6);
        lemma_le_two(b, offset + 4, 4);
        lemma_le_two(b, offset + 6, 2);
    }
}

/// Units are read two bytes at a time, the lower byte first, from the start of the
/// memory on.
pub proof fn law_units_are_pairs_of_bytes(b: Seq<u8>, n: nat)
    requires
        2 * n <= b.len(),
    ensures
        le_units(b, n).len() == n,
        forall|i: int|
            0 <= i < n ==> #[trigger] le_units(b, n)[i] == b[2 * i] + 0x100 * b[2 * i + 1],
{
    assert forall|i: int| 0 <= i < n implies #[trigger] le_units(b, n)[i] == b[2 * i] + 0x100 * b[2
        * i + 1] by {
        lemma_le_two(b, 2 * i, 2);
    }
}

/// An address has four bytes or eight.
pub proof fn law_addresses_have_four_or_eight_bytes()
    ensures
        PointerWidth::Four.size() == 4,
        PointerWidth::Eight.size() == 8,
{
}

} // verus!
