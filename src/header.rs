//! The coded physical header: a codeword for the pair (code rate, data
//! length), classified on receipt by minimum Hamming distance.

use vstd::prelude::*;

use crate::fec::CodeRate;

verus! {

/// Number of bits of a header codeword.
pub const CODEWORD_BITS: usize = 82;

/// Bit `i` of a codeword, the first bit being bit 81 of `word`.
pub open spec fn word_bit(word: u128, i: int) -> bool {
    (word >> ((81 - i) as u128)) & 1u128 == 1u128
}

/// The 82 bits of a codeword in transmission order.
pub open spec fn word_bits(word: u128) -> Seq<bool> {
    Seq::new(82, |i: int| word_bit(word, i))
}

/// Number of positions below `n` where `a` and `b` differ.
pub open spec fn hamming(a: Seq<bool>, b: Seq<bool>, n: nat) -> nat
    decreases n,
{
    if n == 0 {
        0
    } else {
        hamming(a, b, (n - 1) as nat) + if a[n - 1] != b[n - 1] { 1nat } else { 0nat }
    }
}

/// Hamming distance between a codeword and 82 received bits.
pub open spec fn distance(word: u128, bits: Seq<bool>) -> nat {
    hamming(word_bits(word), bits, 82)
}

/// What a coded header carries.
#[derive(PartialEq, Eq, Structural, Clone, Copy, Debug)]
pub struct PhyCodedHeader {
    pub rate: CodeRate,
    pub data_length: usize,
}

/// One codeword of the codebook.
#[derive(PartialEq, Eq, Structural, Clone, Copy, Debug)]
pub struct CodebookEntry {
    pub rate: CodeRate,
    pub data_length: usize,
    pub word: u128,
}

/// The codebook of header codewords.
pub struct HeaderCodebook {
    entries: Vec<CodebookEntry>,
}

/// Index of the first entry among the first `n` nearest to `bits`.
pub open spec fn nearest_index(entries: Seq<CodebookEntry>, bits: Seq<bool>, n: nat) -> int
    decreases n,
{
    if n <= 1 {
        0
    } else {
        let k = nearest_index(entries, bits, (n - 1) as nat);
        if distance(entries[n - 1].word, bits) < distance(entries[k].word, bits) {
            n - 1
        } else {
            k
        }
    }
}

/// The first nearest entry is at least as near as every other entry.
pub proof fn lemma_nearest_is_minimal(entries: Seq<CodebookEntry>, bits: Seq<bool>, n: nat)
    requires
        1 <= n <= entries.len(),
    ensures
        0 <= nearest_index(entries, bits, n) < n,
        forall|j: int| 0 <= j < n ==> distance(entries[nearest_index(entries, bits, n)].word, bits)
            <= #[trigger] distance(entries[j].word, bits),
    decreases n,
{
    if n > 1 {
        lemma_nearest_is_minimal(entries, bits, (n - 1) as nat);
    }
}

/// A sequence differs from itself nowhere.
pub proof fn lemma_hamming_self(a: Seq<bool>, n: nat)
    ensures
        hamming(a, a, n) == 0,
    decreases n,
{
    if n > 0 {
        lemma_hamming_self(a, (n - 1) as nat);
    }
}

proof fn lemma_hamming_bound(a: Seq<bool>, b: Seq<bool>, n: nat)
    ensures
        hamming(a, b, n) <= n,
    decreases n,
{
    if n > 0 {
        lemma_hamming_bound(a, b, (n - 1) as nat);
    }
}

impl HeaderCodebook {
    pub closed spec fn spec_entries(&self) -> Seq<CodebookEntry> {
        self.entries@
    }

    /// Every word has 82 bits, every data length fits in a byte, and any
    /// two words differ.
    pub open spec fn wf(&self) -> bool {
        &&& forall|a: int| 0 <= a < self.spec_entries().len() ==> #[trigger] self.spec_entries()[a].word < 0x4_0000_0000_0000_0000_0000u128
        &&& forall|a: int| 0 <= a < self.spec_entries().len() ==> #[trigger] self.spec_entries()[a].data_length <= 255
        &&& forall|a: int, b: int| 0 <= a < self.spec_entries().len() && 0 <= b < self.spec_entries().len() && a != b
            ==> #[trigger] distance(self.spec_entries()[a].word, word_bits(self.spec_entries()[b].word)) > 0
    }

    /// An empty codebook.
    pub fn new() -> (r: Self)
        ensures
            r.wf(),
            r.spec_entries().len() == 0,
    {
        HeaderCodebook { entries: Vec::new() }
    }

    /// Number of codewords.
    pub fn len(&self) -> (r: usize)
        ensures
            r == self.spec_entries().len(),
    {
        self.entries.len()
    }

    /// Adds the codeword `word` (its low 82 bits, bit 81 first on air) for
    /// `(rate, data_length)`. Refuses, and returns `false`, a data length
    /// above 255, a word of more than 82 bits, or one whose bits equal those of a word already in the
    /// codebook.
    pub fn push(&mut self, rate: CodeRate, data_length: usize, word: u128) -> (r: bool)
        requires
            old(self).wf(),
        ensures
            final(self).wf(),
            r == (word < 0x4_0000_0000_0000_0000_0000u128 && data_length <= 255
                && forall|a: int| 0 <= a < old(self).spec_entries().len()
                    ==> distance(#[trigger] old(self).spec_entries()[a].word, word_bits(word)) > 0),
            r ==> final(self).spec_entries() == old(self).spec_entries().push(CodebookEntry { rate, data_length, word }),
            !r ==> final(self).spec_entries() == old(self).spec_entries(),
    {
        if word >= 0x4_0000_0000_0000_0000_0000u128 || data_length > 255 {
            return false;
        }
        let bits = codeword_bits(word);
        let mut a: usize = 0;
        while a < self.entries.len()
            invariant
                self.wf(),
                self.entries@ == old(self).spec_entries(),
                a <= self.entries@.len(),
                bits@ == word_bits(word),
                forall|j: int| 0 <= j < a ==> distance(#[trigger] self.entries@[j].word, word_bits(word)) > 0,
            decreases self.entries@.len() - a,
        {
            let d = word_distance(self.entries[a].word, &bits);
            if d == 0 {
                return false;
            }
            a = a + 1;
        }
        let ghost before = self.entries@;
        self.entries.push(CodebookEntry { rate, data_length, word });
        proof {
            assert forall|x: int, y: int| 0 <= x < self.entries@.len() && 0 <= y < self.entries@.len() && x != y
                implies #[trigger] distance(self.entries@[x].word, word_bits(self.entries@[y].word)) > 0 by {
                if x == before.len() {
                    lemma_distance_symmetric(word, self.entries@[y].word);
                } else if y == before.len() {
                } else {
                }
            }
        }
        true
    }

    /// The codeword for `(rate, data_length)`: the first entry that has them.
    pub fn codeword(&self, rate: CodeRate, data_length: usize) -> (r: Option<u128>)
        ensures
            r.is_none() <==> forall|k: int| 0 <= k < self.spec_entries().len()
                ==> !(#[trigger] self.spec_entries()[k].rate == rate && self.spec_entries()[k].data_length == data_length),
            r matches Some(w) ==> exists|k: int| 0 <= k < self.spec_entries().len()
                && #[trigger] self.spec_entries()[k].rate == rate && self.spec_entries()[k].data_length == data_length
                && self.spec_entries()[k].word == w
                && forall|j: int| 0 <= j < k ==> !(#[trigger] self.spec_entries()[j].rate == rate
                    && self.spec_entries()[j].data_length == data_length),
    {
        let mut k: usize = 0;
        while k < self.entries.len()
            invariant
                k <= self.entries@.len(),
                forall|j: int| 0 <= j < k ==> !(#[trigger] self.entries@[j].rate == rate && self.entries@[j].data_length == data_length),
            decreases self.entries@.len() - k,
        {
            if self.entries[k].rate == rate && self.entries[k].data_length == data_length {
                return Some(self.entries[k].word);
            }
            k = k + 1;
        }
        None
    }

    /// Classifies 82 received bits: the first entry at minimum Hamming
    /// distance, with that distance; `None` for an empty codebook.
    pub fn classify(&self, bits: &Vec<bool>) -> (r: Option<(PhyCodedHeader, usize)>)
        requires
            bits@.len() == 82,
        ensures
            r.is_none() <==> self.spec_entries().len() == 0,
            r matches Some((h, d)) ==> {
                let k = nearest_index(self.spec_entries(), bits@, self.spec_entries().len());
                &&& h.rate == self.spec_entries()[k].rate
                &&& h.data_length == self.spec_entries()[k].data_length
                &&& d == distance(self.spec_entries()[k].word, bits@)
            },
    {
        if self.entries.len() == 0 {
            return None;
        }
        let mut best: usize = 0;
        let mut best_distance = word_distance(self.entries[0].word, bits);
        let mut k: usize = 1;
        while k < self.entries.len()
            invariant
                1 <= k <= self.entries@.len(),
                bits@.len() == 82,
                best == nearest_index(self.entries@, bits@, k as nat),
                best < k,
                best_distance == distance(self.entries@[best as int].word, bits@),
            decreases self.entries@.len() - k,
        {
            let d = word_distance(self.entries[k].word, bits);
            if d < best_distance {
                best = k;
                best_distance = d;
            }
            k = k + 1;
        }
        Some((PhyCodedHeader { rate: self.entries[best].rate, data_length: self.entries[best].data_length }, best_distance))
    }
}

proof fn lemma_distance_symmetric(a: u128, b: u128)
    ensures
        distance(a, word_bits(b)) == distance(b, word_bits(a)),
{
    lemma_hamming_symmetric(word_bits(a), word_bits(b), 82);
}

proof fn lemma_hamming_symmetric(a: Seq<bool>, b: Seq<bool>, n: nat)
    ensures
        hamming(a, b, n) == hamming(b, a, n),
    decreases n,
{
    if n > 0 {
        lemma_hamming_symmetric(a, b, (n - 1) as nat);
    }
}

/// The 82 bits of a codeword in transmission order.
pub fn codeword_bits(word: u128) -> (r: Vec<bool>)
    ensures
        r@ == word_bits(word),
{
    let mut r: Vec<bool> = Vec::new();
    let mut i: usize = 0;
    while i < 82
        invariant
            i <= 82,
            r@.len() == i,
            forall|j: int| 0 <= j < i ==> #[trigger] r@[j] == word_bit(word, j),
        decreases 82 - i,
    {
        r.push((word >> ((81 - i) as u128)) & 1u128 == 1u128);
        i = i + 1;
    }
    assert(r@ =~= word_bits(word));
    r
}

/// Hamming distance between a codeword and 82 received bits.
pub fn word_distance(word: u128, bits: &Vec<bool>) -> (r: usize)
    requires
        bits@.len() == 82,
    ensures
        r == distance(word, bits@),
        r <= 82,
{
    let mut d: usize = 0;
    let mut i: usize = 0;
    while i < 82
        invariant
            i <= 82,
            bits@.len() == 82,
            d == hamming(word_bits(word), bits@, i as nat),
            d <= i,
        decreases 82 - i,
    {
        let w = (word >> ((81 - i) as u128)) & 1u128 == 1u128;
        if w != bits[i] {
            d = d + 1;
        }
        i = i + 1;
    }
    d
}

} // verus!
