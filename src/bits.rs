//! Bit-level reading over a byte slice, in either bit order.

use vstd::prelude::*;
use vstd::arithmetic::power2::{pow2, lemma_pow2_unfold, lemma_pow2_pos, lemma_pow2_strictly_increases, lemma2_to64, lemma2_to64_rest};

verus! {

/// Order of the bits within each byte.
#[derive(PartialEq, Eq, Structural, Clone, Copy, Debug)]
pub enum BitOrder {
    /// Bit 0 of a byte is its least significant bit.
    Lsb0,
    /// Bit 0 of a byte is its most significant bit.
    Msb0,
}

/// Bit `i` of `bytes`, counting most significant bit first within each byte.
pub open spec fn msb0_bit(bytes: Seq<u8>, i: int) -> bool {
    (bytes[i / 8] >> ((7 - i % 8) as u8)) & 1u8 == 1u8
}

/// Bit `i` of `bytes`, counting least significant bit first within each byte.
pub open spec fn lsb0_bit(bytes: Seq<u8>, i: int) -> bool {
    (bytes[i / 8] >> ((i % 8) as u8)) & 1u8 == 1u8
}

pub open spec fn bit_in_order(order: BitOrder, bytes: Seq<u8>, i: int) -> bool {
    match order {
        BitOrder::Lsb0 => lsb0_bit(bytes, i),
        BitOrder::Msb0 => msb0_bit(bytes, i),
    }
}

pub open spec fn bit_value(b: bool) -> nat {
    if b { 1 } else { 0 }
}

/// The `count` bits from `start` read as a big-endian number: the first bit
/// is the most significant.
pub open spec fn load_be(order: BitOrder, bytes: Seq<u8>, start: int, count: nat) -> nat
    decreases count,
{
    if count == 0 {
        0
    } else {
        2 * load_be(order, bytes, start, (count - 1) as nat)
            + bit_value(bit_in_order(order, bytes, start + count - 1))
    }
}

/// The `count` bits from `start` read as a little-endian number: the first
/// bit is the least significant.
pub open spec fn load_le(order: BitOrder, bytes: Seq<u8>, start: int, count: nat) -> nat
    decreases count,
{
    if count == 0 {
        0
    } else {
        load_le(order, bytes, start, (count - 1) as nat)
            + bit_value(bit_in_order(order, bytes, start + count - 1)) * pow2((count - 1) as nat)
    }
}

/// The number that `read_bits` yields for `count` bits from `start`: within an
/// `Lsb0` reader the first bit is the least significant, within an `Msb0`
/// reader the most significant.
pub open spec fn load(order: BitOrder, bytes: Seq<u8>, start: int, count: nat) -> nat {
    match order {
        BitOrder::Lsb0 => load_le(order, bytes, start, count),
        BitOrder::Msb0 => load_be(order, bytes, start, count),
    }
}

/// A number read from `count` bits is below `2^count`.
pub proof fn lemma_load_bound(order: BitOrder, bytes: Seq<u8>, start: int, count: nat)
    ensures
        load_be(order, bytes, start, count) < pow2(count),
        load_le(order, bytes, start, count) < pow2(count),
    decreases count,
{
    if count == 0 {
        lemma2_to64();
    } else {
        let c1 = (count - 1) as nat;
        lemma_load_bound(order, bytes, start, c1);
        lemma_pow2_unfold(count);
        lemma_pow2_pos(c1);
        let b = bit_value(bit_in_order(order, bytes, start + count - 1));
        assert(b * pow2(c1) <= pow2(c1)) by (nonlinear_arith)
            requires b <= 1, pow2(c1) > 0;
    }
}

/// The byte whose bits, most significant first, are `c0` to `c7` (each 0 or 1).
pub open spec fn byte_from_bits(c0: u8, c1: u8, c2: u8, c3: u8, c4: u8, c5: u8, c6: u8, c7: u8) -> u8 {
    (c0 << 7u8) | (c1 << 6u8) | (c2 << 5u8) | (c3 << 4u8) | (c4 << 3u8) | (c5 << 2u8) | (c6 << 1u8) | c7
}

proof fn lemma_byte_from_bits(c0: u8, c1: u8, c2: u8, c3: u8, c4: u8, c5: u8, c6: u8, c7: u8)
    requires
        c0 <= 1, c1 <= 1, c2 <= 1, c3 <= 1, c4 <= 1, c5 <= 1, c6 <= 1, c7 <= 1,
    ensures
        (byte_from_bits(c0, c1, c2, c3, c4, c5, c6, c7) >> 7u8) & 1u8 == c0,
        (byte_from_bits(c0, c1, c2, c3, c4, c5, c6, c7) >> 6u8) & 1u8 == c1,
        (byte_from_bits(c0, c1, c2, c3, c4, c5, c6, c7) >> 5u8) & 1u8 == c2,
        (byte_from_bits(c0, c1, c2, c3, c4, c5, c6, c7) >> 4u8) & 1u8 == c3,
        (byte_from_bits(c0, c1, c2, c3, c4, c5, c6, c7) >> 3u8) & 1u8 == c4,
        (byte_from_bits(c0, c1, c2, c3, c4, c5, c6, c7) >> 2u8) & 1u8 == c5,
        (byte_from_bits(c0, c1, c2, c3, c4, c5, c6, c7) >> 1u8) & 1u8 == c6,
        (byte_from_bits(c0, c1, c2, c3, c4, c5, c6, c7) >> 0u8) & 1u8 == c7,
{
    assert(((c0 << 7u8) | (c1 << 6u8) | (c2 << 5u8) | (c3 << 4u8) | (c4 << 3u8) | (c5 << 2u8) | (c6 << 1u8) | c7) >> 7u8 & 1u8 == c0
        && ((c0 << 7u8) | (c1 << 6u8) | (c2 << 5u8) | (c3 << 4u8) | (c4 << 3u8) | (c5 << 2u8) | (c6 << 1u8) | c7) >> 6u8 & 1u8 == c1
        && ((c0 << 7u8) | (c1 << 6u8) | (c2 << 5u8) | (c3 << 4u8) | (c4 << 3u8) | (c5 << 2u8) | (c6 << 1u8) | c7) >> 5u8 & 1u8 == c2
        && ((c0 << 7u8) | (c1 << 6u8) | (c2 << 5u8) | (c3 << 4u8) | (c4 << 3u8) | (c5 << 2u8) | (c6 << 1u8) | c7) >> 4u8 & 1u8 == c3
        && ((c0 << 7u8) | (c1 << 6u8) | (c2 << 5u8) | (c3 << 4u8) | (c4 << 3u8) | (c5 << 2u8) | (c6 << 1u8) | c7) >> 3u8 & 1u8 == c4
        && ((c0 << 7u8) | (c1 << 6u8) | (c2 << 5u8) | (c3 << 4u8) | (c4 << 3u8) | (c5 << 2u8) | (c6 << 1u8) | c7) >> 2u8 & 1u8 == c5
        && ((c0 << 7u8) | (c1 << 6u8) | (c2 << 5u8) | (c3 << 4u8) | (c4 << 3u8) | (c5 << 2u8) | (c6 << 1u8) | c7) >> 1u8 & 1u8 == c6
        && ((c0 << 7u8) | (c1 << 6u8) | (c2 << 5u8) | (c3 << 4u8) | (c4 << 3u8) | (c5 << 2u8) | (c6 << 1u8) | c7) >> 0u8 & 1u8 == c7)
        by (bit_vector)
        requires
            c0 <= 1, c1 <= 1, c2 <= 1, c3 <= 1, c4 <= 1, c5 <= 1, c6 <= 1, c7 <= 1,
    ;
}

proof fn lemma_index_split(j: int, k: int)
    requires
        0 <= j,
        0 <= k < 8,
    ensures
        (8 * j + k) / 8 == j,
        (8 * j + k) % 8 == k,
{
    vstd::arithmetic::div_mod::lemma_fundamental_div_mod_converse(8 * j + k, 8, j, k);
}

/// Packs bits into bytes, most significant bit first; the bit count is a
/// multiple of eight.
pub fn pack_msb0(bits: &Vec<bool>) -> (r: Vec<u8>)
    requires
        bits@.len() % 8 == 0,
    ensures
        r@.len() * 8 == bits@.len(),
        forall|i: int| 0 <= i < bits@.len() ==> #[trigger] msb0_bit(r@, i) == bits@[i],
{
    let n = bits.len() / 8;
    let mut r: Vec<u8> = Vec::new();
    let mut j: usize = 0;
    while j < n
        invariant
            n * 8 == bits@.len(),
            bits@.len() <= usize::MAX,
            j <= n,
            r@.len() == j,
            forall|i: int| 0 <= i < 8 * j ==> #[trigger] msb0_bit(r@, i) == bits@[i],
        decreases n - j,
    {
        let base = 8 * j;
        let c0 = bits[base] as u8;
        let c1 = bits[base + 1] as u8;
        let c2 = bits[base + 2] as u8;
        let c3 = bits[base + 3] as u8;
        let c4 = bits[base + 4] as u8;
        let c5 = bits[base + 5] as u8;
        let c6 = bits[base + 6] as u8;
        let c7 = bits[base + 7] as u8;
        let v = (c0 << 7u8) | (c1 << 6u8) | (c2 << 5u8) | (c3 << 4u8) | (c4 << 3u8) | (c5 << 2u8) | (c6 << 1u8) | c7;
        proof {
            lemma_byte_from_bits(c0, c1, c2, c3, c4, c5, c6, c7);
        }
        let ghost prev = r@;
        r.push(v);
        proof {
            assert forall|i: int| 0 <= i < 8 * (j + 1) implies #[trigger] msb0_bit(r@, i) == bits@[i] by {
                if i < 8 * j {
                    vstd::arithmetic::div_mod::lemma_fundamental_div_mod(i, 8);
                    assert(i / 8 < j as int) by (nonlinear_arith)
                        requires i < 8 * j, i >= 0, i == 8 * (i / 8) + i % 8, 0 <= i % 8 < 8;
                    assert(r@[i / 8] == prev[i / 8]);
                    assert(msb0_bit(prev, i) == bits@[i]);
                } else {
                    let k = i - 8 * j;
                    lemma_index_split(j as int, k);
                    assert(r@[i / 8] == v);
                    assert(bits@[i] == (bits@[8 * j + k]));
                    if k == 0 {} else if k == 1 {} else if k == 2 {} else if k == 3 {}
                    else if k == 4 {} else if k == 5 {} else if k == 6 {} else {}
                }
            }
        }
        j = j + 1;
    }
    r
}

/// Appends `src` to `out`.
pub fn extend_bytes(out: &mut Vec<u8>, src: &[u8])
    ensures
        final(out)@ == old(out)@ + src@,
{
    let mut i: usize = 0;
    while i < src.len()
        invariant
            i <= src@.len(),
            out@ == old(out)@ + src@.subrange(0, i as int),
        decreases src@.len() - i,
    {
        out.push(src[i]);
        i = i + 1;
        assert(src@.subrange(0, i as int) =~= src@.subrange(0, (i - 1) as int).push(src@[i - 1]));
    }
    assert(src@.subrange(0, i as int) =~= src@);
}

/// Reads a byte slice bit by bit with a cursor that only moves forward.
pub struct BitReader<'a> {
    bytes: &'a [u8],
    order: BitOrder,
    pos: usize,
}

impl<'a> BitReader<'a> {
    pub closed spec fn spec_bytes(&self) -> Seq<u8> {
        self.bytes@
    }

    pub closed spec fn spec_order(&self) -> BitOrder {
        self.order
    }

    /// Index of the next bit to read.
    pub closed spec fn spec_pos(&self) -> nat {
        self.pos as nat
    }

    pub closed spec fn wf(&self) -> bool {
        self.pos <= self.bytes@.len() * 8 && self.bytes@.len() * 8 <= usize::MAX
    }

    pub fn from_slice(bytes: &'a [u8], order: BitOrder) -> (r: Self)
        requires
            bytes@.len() * 8 <= usize::MAX,
        ensures
            r.wf(),
            r.spec_bytes() == bytes@,
            r.spec_order() == order,
            r.spec_pos() == 0,
    {
        BitReader { bytes, order, pos: 0 }
    }

    /// Number of bits left to read.
    pub fn remaining(&self) -> (r: usize)
        requires
            self.wf(),
        ensures
            r == self.spec_bytes().len() * 8 - self.spec_pos(),
    {
        self.bytes.len() * 8 - self.pos
    }

    fn bit(&self, i: usize) -> (r: bool)
        requires
            self.wf(),
            i < self.bytes@.len() * 8,
        ensures
            r == bit_in_order(self.order, self.bytes@, i as int),
    {
        let byte = self.bytes[i / 8];
        match self.order {
            BitOrder::Lsb0 => (byte >> ((i % 8) as u8)) & 1u8 == 1u8,
            BitOrder::Msb0 => (byte >> ((7 - i % 8) as u8)) & 1u8 == 1u8,
        }
    }

    /// Reads the next bit, or `None` at the end of the slice.
    pub fn read_bit(&mut self) -> (r: Option<bool>)
        requires
            old(self).wf(),
        ensures
            final(self).wf(),
            final(self).spec_bytes() == old(self).spec_bytes(),
            final(self).spec_order() == old(self).spec_order(),
            old(self).spec_pos() < old(self).spec_bytes().len() * 8 ==> {
                &&& r == Some(bit_in_order(old(self).spec_order(), old(self).spec_bytes(), old(self).spec_pos() as int))
                &&& final(self).spec_pos() == old(self).spec_pos() + 1
            },
            old(self).spec_pos() >= old(self).spec_bytes().len() * 8 ==> {
                &&& r.is_none()
                &&& final(self).spec_pos() == old(self).spec_pos()
            },
    {
        if self.pos < self.bytes.len() * 8 {
            let b = self.bit(self.pos);
            self.pos = self.pos + 1;
            Some(b)
        } else {
            None
        }
    }

    /// Reads the next `count` bits as a number (see `load`), or `None`, with
    /// the cursor left where it was, when fewer than `count` bits are left.
    pub fn read_bits(&mut self, count: usize) -> (r: Option<u64>)
        requires
            old(self).wf(),
            count <= 64,
        ensures
            final(self).wf(),
            final(self).spec_bytes() == old(self).spec_bytes(),
            final(self).spec_order() == old(self).spec_order(),
            old(self).spec_pos() + count <= old(self).spec_bytes().len() * 8 ==> {
                &&& r == Some(load(old(self).spec_order(), old(self).spec_bytes(), old(self).spec_pos() as int, count as nat) as u64)
                &&& final(self).spec_pos() == old(self).spec_pos() + count
            },
            old(self).spec_pos() + count > old(self).spec_bytes().len() * 8 ==> {
                &&& r.is_none()
                &&& final(self).spec_pos() == old(self).spec_pos()
            },
    {
        if count > self.bytes.len() * 8 - self.pos {
            return None;
        }
        let ghost start = self.pos as int;
        let mut value: u128 = 0;
        let mut weight: u128 = 1;
        let mut k: usize = 0;
        proof {
            lemma2_to64();
            lemma2_to64_rest();
        }
        while k < count
            invariant
                self.wf(),
                start == self.pos,
                self.pos + count <= self.bytes@.len() * 8,
                k <= count,
                count <= 64,
                weight == pow2(k as nat),
                pow2(64) == 0x1_0000_0000_0000_0000,
                self.order == BitOrder::Msb0 ==> value == load_be(self.order, self.bytes@, start, k as nat),
                self.order == BitOrder::Lsb0 ==> value == load_le(self.order, self.bytes@, start, k as nat),
            decreases count - k,
        {
            let b = self.bit(self.pos + k);
            proof {
                lemma_load_bound(self.order, self.bytes@, start, k as nat);
                lemma_pow2_unfold((k + 1) as nat);
                if k + 1 < 64 {
                    lemma_pow2_strictly_increases((k + 1) as nat, 64);
                }
            }
            match self.order {
                BitOrder::Msb0 => {
                    value = 2 * value + if b { 1u128 } else { 0u128 };
                },
                BitOrder::Lsb0 => {
                    proof {
                        assert(load_le(self.order, self.bytes@, start, (k + 1) as nat)
                            == load_le(self.order, self.bytes@, start, k as nat)
                                + bit_value(b) * pow2(k as nat));
                        if !b {
                            assert(bit_value(b) * pow2(k as nat) == 0);
                        }
                    }
                    if b {
                        value = value + weight;
                    }
                },
            }
            weight = 2 * weight;
            k = k + 1;
        }
        proof {
            lemma_load_bound(self.order, self.bytes@, start, count as nat);
            if count < 64 {
                lemma_pow2_strictly_increases(count as nat, 64);
            }
        }
        self.pos = self.pos + count;
        Some(value as u64)
    }
}

} // verus!
