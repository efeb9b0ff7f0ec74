//! The parts of the turbo code that this library owns: rate matching, the
//! collection of encoder output into systematic and parity bytes, the
//! packing of the trellis termination, and the soft input that a turbo
//! decoder takes. The convolutional encoder and the BCJR decoder themselves
//! are external.

use vstd::prelude::*;

use crate::bits::{msb0_bit, pack_msb0, BitOrder, BitReader};

verus! {

/// Code rate of a frame.
#[derive(PartialEq, Eq, Structural, Clone, Copy, Debug)]
pub enum CodeRate {
    OneThird,
    OneHalf,
}

/// A log-likelihood ratio: positive for a one, negative for a zero.
pub type Llr = i16;

/// Soft value of a hard bit at signal-to-noise `snr`: `+snr` for a one,
/// `-snr` for a zero.
pub open spec fn spec_llr(bit: bool, snr: Llr) -> int {
    if bit { snr as int } else { -(snr as int) }
}

pub fn llr_of(bit: bool, snr: Llr) -> (r: Llr)
    requires
        snr > i16::MIN,
    ensures
        r == spec_llr(bit, snr),
{
    if bit { snr } else { -snr }
}

/// Whether the first encoder's parity bit at input position `i` goes on air.
pub open spec fn first_keeps(rate: CodeRate, i: int) -> bool {
    match rate {
        CodeRate::OneThird => true,
        CodeRate::OneHalf => i % 2 == 0,
    }
}

/// Whether the second encoder's parity bit at input position `i` goes on air.
pub open spec fn second_keeps(rate: CodeRate, i: int) -> bool {
    match rate {
        CodeRate::OneThird => true,
        CodeRate::OneHalf => i % 2 == 1,
    }
}

/// Number of the first encoder's parity bits kept before position `i`.
pub open spec fn first_kept_before(rate: CodeRate, i: int) -> int {
    match rate {
        CodeRate::OneThird => i,
        CodeRate::OneHalf => (i + 1) / 2,
    }
}

/// Number of the second encoder's parity bits kept before position `i`.
pub open spec fn second_kept_before(rate: CodeRate, i: int) -> int {
    match rate {
        CodeRate::OneThird => i,
        CodeRate::OneHalf => i / 2,
    }
}

/// Number of parity bits on air for a block of `n` bits.
pub open spec fn parity_bit_count(rate: CodeRate, n: int) -> int {
    first_kept_before(rate, n) + second_kept_before(rate, n)
}

/// Whether a cyclic puncturing pattern drops position `i`: bit `i mod period`
/// of the pattern, least significant bit first, is set.
pub open spec fn punctures(period: usize, pattern: u32, i: int) -> bool {
    (pattern >> ((i % period as int) as u32)) & 1u32 == 1u32
}

/// Rate matching: a cyclic pattern of kept and dropped positions.
pub struct Puncturer {
    period: usize,
    pattern: u32,
    position: usize,
}

impl Puncturer {
    pub closed spec fn spec_period(&self) -> usize {
        self.period
    }

    pub closed spec fn spec_pattern(&self) -> u32 {
        self.pattern
    }

    /// Position within the pattern of the next bit.
    pub closed spec fn spec_position(&self) -> usize {
        self.position
    }

    pub closed spec fn wf(&self) -> bool {
        1 <= self.period <= 32 && self.position < self.period
    }

    /// A puncturer that keeps every bit.
    pub fn keep_all() -> (r: Self)
        ensures
            r.wf(),
            r.spec_period() == 1,
            r.spec_pattern() == 0,
            r.spec_position() == 0,
    {
        Puncturer { period: 1, pattern: 0, position: 0 }
    }

    /// A puncturer with a pattern of `period` bits; a set bit drops.
    pub fn new(period: usize, pattern: u32) -> (r: Self)
        requires
            1 <= period <= 32,
        ensures
            r.wf(),
            r.spec_period() == period,
            r.spec_pattern() == pattern,
            r.spec_position() == 0,
    {
        Puncturer { period, pattern, position: 0 }
    }

    /// Whether the next bit is kept; moves to the following position.
    pub fn read_output(&mut self) -> (r: bool)
        requires
            old(self).wf(),
        ensures
            final(self).wf(),
            final(self).spec_period() == old(self).spec_period(),
            final(self).spec_pattern() == old(self).spec_pattern(),
            final(self).spec_position() == (old(self).spec_position() + 1) % (old(self).spec_period() as int),
            r == !punctures(old(self).spec_period(), old(self).spec_pattern(), old(self).spec_position() as int),
    {
        let shifted = self.pattern >> (self.position as u32);
        let keep = shifted & 1u32 == 0u32;
        proof {
            assert((shifted & 1u32 == 0u32) == !(shifted & 1u32 == 1u32)) by (bit_vector);
            assert((self.position as int % self.period as int) as u32 == self.position as u32) by {
                vstd::arithmetic::div_mod::lemma_small_mod(self.position as nat, self.period as nat);
            }
            vstd::arithmetic::div_mod::lemma_small_mod(self.position as nat, self.period as nat);
            if self.position + 1 == self.period {
                vstd::arithmetic::div_mod::lemma_mod_self_0(self.period as int);
            } else {
                vstd::arithmetic::div_mod::lemma_small_mod((self.position + 1) as nat, self.period as nat);
            }
        }
        self.position = if self.position + 1 == self.period { 0 } else { self.position + 1 };
        keep
    }
}

/// The two puncturers of a rate, one per constituent encoder, before the
/// first bit.
pub fn puncturers(rate: CodeRate) -> (r: (Puncturer, Puncturer))
    ensures
        r.0.wf(),
        r.1.wf(),
        r.0.spec_position() == 0,
        r.1.spec_position() == 0,
        puncturers_of(rate, r.0, r.1),
{
    proof {
        lemma_half_patterns();
        assert forall|x: u32| (0u32 >> x) & 1u32 == 0u32 by {
            assert((0u32 >> x) & 1u32 == 0u32) by (bit_vector);
        }
    }
    match rate {
        CodeRate::OneThird => (Puncturer::keep_all(), Puncturer::keep_all()),
        CodeRate::OneHalf => (Puncturer::new(2, 0b10), Puncturer::new(2, 0b01)),
    }
}

/// `p1` and `p2` are the puncturers of `rate`: they keep exactly the
/// positions that `first_keeps` and `second_keeps` name.
pub open spec fn puncturers_of(rate: CodeRate, p1: Puncturer, p2: Puncturer) -> bool {
    &&& p1.spec_period() == p2.spec_period()
    &&& forall|i: int| 0 <= i ==> (!punctures(p1.spec_period(), p1.spec_pattern(), i) <==> #[trigger] first_keeps(rate, i))
    &&& forall|i: int| 0 <= i ==> (!punctures(p2.spec_period(), p2.spec_pattern(), i) <==> #[trigger] second_keeps(rate, i))
}

proof fn lemma_half_patterns()
    ensures
        forall|i: int| 0 <= i ==> (!punctures(2, 0b10, i) <==> #[trigger] first_keeps(CodeRate::OneHalf, i)),
        forall|i: int| 0 <= i ==> (!punctures(2, 0b01, i) <==> #[trigger] second_keeps(CodeRate::OneHalf, i)),
{
    assert((2u32 >> 0u32) & 1u32 == 0u32) by (bit_vector);
    assert((2u32 >> 1u32) & 1u32 == 1u32) by (bit_vector);
    assert((1u32 >> 0u32) & 1u32 == 1u32) by (bit_vector);
    assert((1u32 >> 1u32) & 1u32 == 0u32) by (bit_vector);
    assert forall|i: int| 0 <= i implies (!punctures(2, 0b10, i) <==> #[trigger] first_keeps(CodeRate::OneHalf, i)) by {
        if i % 2 == 0 {
            assert((i % 2) as u32 == 0u32);
        } else {
            assert((i % 2) as u32 == 1u32);
        }
    }
    assert forall|i: int| 0 <= i implies (!punctures(2, 0b01, i) <==> #[trigger] second_keeps(CodeRate::OneHalf, i)) by {
        if i % 2 == 0 {
            assert((i % 2) as u32 == 0u32);
        } else {
            assert((i % 2) as u32 == 1u32);
        }
    }
}

/// Systematic bit of one output of a constituent or turbo encoder (bit 0).
pub open spec fn systematic_bit(output: u8) -> bool {
    output % 2 == 1
}

/// First parity bit of an encoder output (bit 1).
pub open spec fn first_parity_bit(output: u8) -> bool {
    (output / 2) % 2 == 1
}

/// Second parity bit of a turbo encoder output (bit 2).
pub open spec fn second_parity_bit(output: u8) -> bool {
    (output / 4) % 2 == 1
}

/// Bit `k` of `v`.
pub open spec fn bit_of(v: nat, k: nat) -> bool
    decreases k,
{
    if k == 0 {
        v % 2 == 1
    } else {
        bit_of(v / 2, (k - 1) as nat)
    }
}

/// The trellis termination of one constituent encoder: three systematic
/// bits in bits 5..3 and three parity bits in bits 2..0, first output
/// highest.
#[derive(PartialEq, Eq, Structural, Clone, Copy, Debug)]
pub struct EncoderTermination(pub u64);

impl EncoderTermination {
    /// Appends one termination output: earlier bits move up by one.
    pub fn append_output(&mut self, output: u8)
        requires
            old(self).0 <= 0x7FFF_FFFF_FFFF_FFF0,
        ensures
            final(self).0 == 2 * old(self).0 + 8 * (if systematic_bit(output) { 1int } else { 0 })
                + (if first_parity_bit(output) { 1int } else { 0 }),
    {
        let s: u64 = (output % 2) as u64;
        let p: u64 = ((output / 2) % 2) as u64;
        self.0 = 2 * self.0 + 8 * s + p;
    }

    /// The three termination symbols as (systematic, parity) soft values.
    pub fn get_symbols(&self, snr: Llr) -> (r: [BcjrSymbol; 3])
        requires
            snr > i16::MIN,
        ensures
            forall|k: int| 0 <= k < 3 ==> #[trigger] r[k] == termination_symbol(self.0 as nat, k, snr),
    {
        let v = self.0;
        proof {
            reveal_with_fuel(bit_of, 6);
            vstd::arithmetic::div_mod::lemma_div_denominator(v as int, 2, 2);
            vstd::arithmetic::div_mod::lemma_div_denominator(v as int, 4, 2);
            vstd::arithmetic::div_mod::lemma_div_denominator(v as int, 8, 2);
            vstd::arithmetic::div_mod::lemma_div_denominator(v as int, 16, 2);
        }
        [
            BcjrSymbol {
                systematic: llr_of((v / 32) % 2 == 1, snr),
                parity: llr_of((v / 4) % 2 == 1, snr),
            },
            BcjrSymbol {
                systematic: llr_of((v / 16) % 2 == 1, snr),
                parity: llr_of((v / 2) % 2 == 1, snr),
            },
            BcjrSymbol {
                systematic: llr_of((v / 8) % 2 == 1, snr),
                parity: llr_of(v % 2 == 1, snr),
            },
        ]
    }
}

/// Termination symbol `k` (0, 1 or 2) of the termination word `v`: the
/// systematic bit `5 - k` and the parity bit `2 - k` as soft values.
pub open spec fn termination_symbol(v: nat, k: int, snr: Llr) -> BcjrSymbol {
    BcjrSymbol {
        systematic: spec_llr(bit_of(v, (5 - k) as nat), snr) as Llr,
        parity: spec_llr(bit_of(v, (2 - k) as nat), snr) as Llr,
    }
}

/// `r` holds what `o` collected: its systematic bits and, after the first
/// encoder's kept parity bits, the second's, packed most significant bit
/// first, and its termination words.
pub open spec fn result_of(o: &TurboEncoderOutput, r: &EncodeResult) -> bool {
    &&& r.systematic@.len() * 8 == o.spec_systematic().len()
    &&& forall|i: int| 0 <= i < o.spec_systematic().len() ==> #[trigger] msb0_bit(r.systematic@, i) == o.spec_systematic()[i]
    &&& r.parity@.len() * 8 == o.spec_first_parity().len() + o.spec_second_parity().len()
    &&& forall|i: int| 0 <= i < o.spec_first_parity().len() + o.spec_second_parity().len()
        ==> #[trigger] msb0_bit(r.parity@, i) == (o.spec_first_parity() + o.spec_second_parity())[i]
    &&& r.first_termination == o.spec_first_termination()
    &&& r.second_termination == o.spec_second_termination()
}

/// Soft input of one constituent decoder step: systematic and parity values.
#[derive(PartialEq, Eq, Structural, Clone, Copy, Debug)]
pub struct BcjrSymbol {
    pub systematic: Llr,
    pub parity: Llr,
}

/// Soft input of one turbo decoder step; a punctured parity is 0.
#[derive(PartialEq, Eq, Structural, Clone, Copy, Debug)]
pub struct TurboSymbol {
    pub systematic: Llr,
    pub first_parity: Llr,
    pub second_parity: Llr,
}

proof fn lemma_mod_succ(i: int, p: int)
    requires
        i >= 0,
        p > 0,
    ensures
        ((i % p) + 1) % p == (i + 1) % p,
{
    vstd::arithmetic::div_mod::lemma_add_mod_noop(i, 1, p);
    if p == 1 {
        vstd::arithmetic::div_mod::lemma_mod_self_0(1);
        vstd::arithmetic::div_mod::lemma_small_mod(0, 1);
        assert(i % 1 == 0) by {
            vstd::arithmetic::div_mod::lemma_fundamental_div_mod(i, 1);
        }
        assert((i + 1) % 1 == 0) by {
            vstd::arithmetic::div_mod::lemma_fundamental_div_mod(i + 1, 1);
        }
    } else {
        vstd::arithmetic::div_mod::lemma_small_mod(1, p as nat);
    }
}

/// Collects what a turbo encoder emits: the systematic bits, the parity
/// bits that survive rate matching for each constituent encoder, and the
/// two trellis terminations.
pub struct TurboEncoderOutput {
    rate: CodeRate,
    first_puncturer: Puncturer,
    second_puncturer: Puncturer,
    systematic: Vec<bool>,
    first_parity: Vec<bool>,
    second_parity: Vec<bool>,
    first_termination: EncoderTermination,
    second_termination: EncoderTermination,
    written: usize,
    outputs: Ghost<Seq<u8>>,
}

/// `systematic`, `first_parity` and `second_parity` are what the encoder
/// outputs `outputs` leave at `rate`: every systematic bit, and the parity
/// bits of the positions that rate matching keeps, in order.
pub open spec fn collects(rate: CodeRate, outputs: Seq<u8>, systematic: Seq<bool>, first_parity: Seq<bool>, second_parity: Seq<bool>) -> bool {
    &&& systematic.len() == outputs.len()
    &&& first_parity.len() == first_kept_before(rate, outputs.len() as int)
    &&& second_parity.len() == second_kept_before(rate, outputs.len() as int)
    &&& forall|i: int| 0 <= i < outputs.len() ==> #[trigger] systematic[i] == systematic_bit(outputs[i])
    &&& forall|i: int| 0 <= i < outputs.len() && first_keeps(rate, i)
        ==> first_parity[first_kept_before(rate, i)] == first_parity_bit(#[trigger] outputs[i])
    &&& forall|i: int| 0 <= i < outputs.len() && second_keeps(rate, i)
        ==> second_parity[second_kept_before(rate, i)] == second_parity_bit(#[trigger] outputs[i])
}

/// The bytes and termination words of an encoded block.
pub struct EncodeResult {
    /// Systematic bits packed most significant bit first.
    pub systematic: Vec<u8>,
    /// The first encoder's kept parity bits followed by the second's, packed
    /// most significant bit first.
    pub parity: Vec<u8>,
    pub first_termination: EncoderTermination,
    pub second_termination: EncoderTermination,
}

impl EncodeResult {
    /// The 12-bit termination field: the first encoder's word above the
    /// second's.
    pub open spec fn spec_termination(&self) -> int {
        64 * self.first_termination.0 + self.second_termination.0
    }

    pub fn termination(&self) -> (r: u64)
        requires
            self.first_termination.0 < 64,
            self.second_termination.0 < 64,
        ensures
            r == self.spec_termination(),
    {
        self.first_termination.0 * 64 + self.second_termination.0
    }
}

impl TurboEncoderOutput {
    pub closed spec fn spec_rate(&self) -> CodeRate {
        self.rate
    }

    pub closed spec fn spec_systematic(&self) -> Seq<bool> {
        self.systematic@
    }

    pub closed spec fn spec_first_parity(&self) -> Seq<bool> {
        self.first_parity@
    }

    pub closed spec fn spec_second_parity(&self) -> Seq<bool> {
        self.second_parity@
    }

    pub closed spec fn spec_first_termination(&self) -> EncoderTermination {
        self.first_termination
    }

    pub closed spec fn spec_second_termination(&self) -> EncoderTermination {
        self.second_termination
    }

    /// Number of bits written so far, systematic, parity and termination.
    pub closed spec fn spec_written(&self) -> nat {
        self.written as nat
    }

    /// The encoder outputs taken so far, one per input bit.
    pub closed spec fn spec_outputs(&self) -> Seq<u8> {
        self.outputs@
    }

    pub closed spec fn wf(&self) -> bool {
        &&& self.first_puncturer.wf()
        &&& self.second_puncturer.wf()
        &&& puncturers_of(self.rate, self.first_puncturer, self.second_puncturer)
        &&& self.first_puncturer.spec_position() as int == (self.systematic@.len() as int) % (self.first_puncturer.spec_period() as int)
        &&& self.second_puncturer.spec_position() as int == (self.systematic@.len() as int) % (self.second_puncturer.spec_period() as int)
        &&& collects(self.rate, self.outputs@, self.systematic@, self.first_parity@, self.second_parity@)
    }

    /// An empty output for the given rate.
    pub fn new(rate: CodeRate) -> (r: Self)
        ensures
            r.wf(),
            r.spec_rate() == rate,
            r.spec_systematic().len() == 0,
            r.spec_first_parity().len() == 0,
            r.spec_second_parity().len() == 0,
            r.spec_first_termination().0 == 0,
            r.spec_second_termination().0 == 0,
            r.spec_written() == 0,
            r.spec_outputs().len() == 0,
    {
        let (first_puncturer, second_puncturer) = puncturers(rate);
        proof {
            vstd::arithmetic::div_mod::lemma_small_mod(0, first_puncturer.spec_period() as nat);
        }
        TurboEncoderOutput {
            rate,
            first_puncturer,
            second_puncturer,
            systematic: Vec::new(),
            first_parity: Vec::new(),
            second_parity: Vec::new(),
            first_termination: EncoderTermination(0),
            second_termination: EncoderTermination(0),
            written: 0,
            outputs: Ghost(Seq::empty()),
        }
    }

    /// Takes one turbo encoder output: systematic bit in bit 0, the parity of
    /// the first and second constituent encoder in bits 1 and 2.
    pub fn write_output(&mut self, output: u8)
        requires
            old(self).wf(),
            old(self).spec_written() + 3 <= usize::MAX,
        ensures
            final(self).wf(),
            final(self).spec_rate() == old(self).spec_rate(),
            final(self).spec_outputs() == old(self).spec_outputs().push(output),
            final(self).spec_systematic() == old(self).spec_systematic().push(systematic_bit(output)),
            final(self).spec_first_parity() == if first_keeps(old(self).spec_rate(), old(self).spec_systematic().len() as int) {
                old(self).spec_first_parity().push(first_parity_bit(output))
            } else {
                old(self).spec_first_parity()
            },
            final(self).spec_second_parity() == if second_keeps(old(self).spec_rate(), old(self).spec_systematic().len() as int) {
                old(self).spec_second_parity().push(second_parity_bit(output))
            } else {
                old(self).spec_second_parity()
            },
            final(self).spec_first_termination() == old(self).spec_first_termination(),
            final(self).spec_second_termination() == old(self).spec_second_termination(),
            final(self).spec_written() == old(self).spec_written() + 1
                + (if first_keeps(old(self).spec_rate(), old(self).spec_systematic().len() as int) { 1int } else { 0 })
                + (if second_keeps(old(self).spec_rate(), old(self).spec_systematic().len() as int) { 1int } else { 0 }),
    {
        let ghost i = self.systematic@.len() as int;
        proof {
            lemma_mod_succ(i, self.first_puncturer.spec_period() as int);
            lemma_mod_succ(i, self.second_puncturer.spec_period() as int);
            vstd::arithmetic::div_mod::lemma_small_mod(self.first_puncturer.spec_position() as nat, self.first_puncturer.spec_period() as nat);
            vstd::arithmetic::div_mod::lemma_small_mod(self.second_puncturer.spec_position() as nat, self.second_puncturer.spec_period() as nat);
            assert(first_keeps(self.rate, i) == !punctures(self.first_puncturer.spec_period(), self.first_puncturer.spec_pattern(), i));
            assert(second_keeps(self.rate, i) == !punctures(self.second_puncturer.spec_period(), self.second_puncturer.spec_pattern(), i));
        }
        proof {
            lemma_kept_step(self.rate, i);
        }
        self.outputs = Ghost(self.outputs@.push(output));
        self.systematic.push(output % 2 == 1);
        self.written = self.written + 1;

        if self.first_puncturer.read_output() {
            self.first_parity.push((output / 2) % 2 == 1);
            self.written = self.written + 1;
        }

        if self.second_puncturer.read_output() {
            self.second_parity.push((output / 4) % 2 == 1);
            self.written = self.written + 1;
        }
    }

    /// Takes one termination output of constituent encoder `encoder_index`
    /// (0 for the first, any other value for the second).
    pub fn write_termination_output(&mut self, encoder_index: usize, output: u8)
        requires
            old(self).wf(),
            old(self).spec_written() + 2 <= usize::MAX,
            old(self).spec_first_termination().0 <= 0x7FFF_FFFF_FFFF_FFF0,
            old(self).spec_second_termination().0 <= 0x7FFF_FFFF_FFFF_FFF0,
        ensures
            final(self).wf(),
            final(self).spec_rate() == old(self).spec_rate(),
            final(self).spec_outputs() == old(self).spec_outputs(),
            final(self).spec_systematic() == old(self).spec_systematic(),
            final(self).spec_first_parity() == old(self).spec_first_parity(),
            final(self).spec_second_parity() == old(self).spec_second_parity(),
            final(self).spec_written() == old(self).spec_written() + 2,
            encoder_index == 0 ==> final(self).spec_first_termination().0 == 2 * old(self).spec_first_termination().0
                + 8 * (if systematic_bit(output) { 1int } else { 0 }) + (if first_parity_bit(output) { 1int } else { 0 }),
            encoder_index == 0 ==> final(self).spec_second_termination() == old(self).spec_second_termination(),
            encoder_index != 0 ==> final(self).spec_second_termination().0 == 2 * old(self).spec_second_termination().0
                + 8 * (if systematic_bit(output) { 1int } else { 0 }) + (if first_parity_bit(output) { 1int } else { 0 }),
            encoder_index != 0 ==> final(self).spec_first_termination() == old(self).spec_first_termination(),
    {
        if encoder_index == 0 {
            self.first_termination.append_output(output);
        } else {
            self.second_termination.append_output(output);
        }
        self.written = self.written + 2;
    }

    /// Number of bits written so far.
    pub fn written(&self) -> (r: usize)
        ensures
            r == self.spec_written(),
    {
        self.written
    }

    /// Whether the collected bits fill whole bytes, as `get_result` needs.
    pub fn is_byte_aligned(&self) -> (r: bool)
        ensures
            r == (self.spec_systematic().len() % 8 == 0
                && (self.spec_first_parity().len() + self.spec_second_parity().len()) % 8 == 0),
    {
        self.systematic.len() % 8 == 0 && (self.first_parity.len() % 8 + self.second_parity.len() % 8) % 8 == 0
    }

    /// The systematic bytes and the parity bytes, the second encoder's
    /// parity after the first's, with the two termination words.
    pub fn get_result(self) -> (r: EncodeResult)
        requires
            self.wf(),
            self.spec_systematic().len() % 8 == 0,
            (self.spec_first_parity().len() + self.spec_second_parity().len()) % 8 == 0,
        ensures
            result_of(&self, &r),
    {
        let mut parity = self.first_parity;
        let mut second = self.second_parity;
        parity.append(&mut second);
        let systematic = pack_msb0(&self.systematic);
        let parity_bytes = pack_msb0(&parity);
        EncodeResult {
            systematic,
            parity: parity_bytes,
            first_termination: self.first_termination,
            second_termination: self.second_termination,
        }
    }
}

proof fn lemma_kept_step(rate: CodeRate, i: int)
    requires
        i >= 0,
    ensures
        first_kept_before(rate, i + 1) == first_kept_before(rate, i) + (if first_keeps(rate, i) { 1int } else { 0 }),
        second_kept_before(rate, i + 1) == second_kept_before(rate, i) + (if second_keeps(rate, i) { 1int } else { 0 }),
{
    vstd::arithmetic::div_mod::lemma_fundamental_div_mod(i, 2);
    vstd::arithmetic::div_mod::lemma_fundamental_div_mod(i + 1, 2);
    vstd::arithmetic::div_mod::lemma_fundamental_div_mod(i + 2, 2);
}

proof fn lemma_kept_monotone(rate: CodeRate, i: int, j: int)
    requires
        0 <= i <= j,
    ensures
        first_kept_before(rate, i) <= first_kept_before(rate, j),
        second_kept_before(rate, i) <= second_kept_before(rate, j),
{
    vstd::arithmetic::div_mod::lemma_div_is_ordered(i, j, 2);
    vstd::arithmetic::div_mod::lemma_div_is_ordered(i + 1, j + 1, 2);
}

/// The soft input that a turbo decoder takes for one received block.
pub struct TurboDecoderInput {
    pub symbols: Vec<TurboSymbol>,
    pub first_termination: [BcjrSymbol; 3],
    pub second_termination: [BcjrSymbol; 3],
}

impl TurboDecoderInput {
    /// Builds the decoder input from the received systematic block, the
    /// received parity bytes (the first encoder's kept bits, then the
    /// second's) and the two termination words, with hard bits mapped to
    /// `+snr` and `-snr` and punctured positions to 0.
    pub fn new(
        rate: CodeRate,
        block: &[u8],
        parity: &[u8],
        first_termination: EncoderTermination,
        second_termination: EncoderTermination,
        snr: Llr,
    ) -> (r: Self)
        requires
            snr > i16::MIN,
            block@.len() * 8 <= usize::MAX,
            parity@.len() * 8 <= usize::MAX,
            parity@.len() * 8 >= parity_bit_count(rate, (block@.len() * 8) as int),
        ensures
            r.symbols@.len() == block@.len() * 8,
            forall|i: int| 0 <= i < block@.len() * 8 ==> #[trigger] r.symbols@[i] == decoder_symbol(rate, block@, parity@, snr, i),
            forall|k: int| 0 <= k < 3 ==> #[trigger] r.first_termination[k] == termination_symbol(first_termination.0 as nat, k, snr),
            forall|k: int| 0 <= k < 3 ==> #[trigger] r.second_termination[k] == termination_symbol(second_termination.0 as nat, k, snr),
    {
        let (mut first_puncturer, mut second_puncturer) = puncturers(rate);
        let n = 8 * block.len();
        let mut symbols: Vec<TurboSymbol> = Vec::new();
        let mut systematic_reader = BitReader::from_slice(block, BitOrder::Msb0);
        let mut parity_reader = BitReader::from_slice(parity, BitOrder::Msb0);
        proof {
            vstd::arithmetic::div_mod::lemma_small_mod(0, first_puncturer.spec_period() as nat);
            lemma_kept_monotone(rate, 0, n as int);
        }

        // Systematic and first encoder parity
        let mut i: usize = 0;
        while i < n
            invariant
                n == block@.len() * 8,
                snr > i16::MIN,
                i <= n,
                symbols@.len() == i,
                systematic_reader.wf(),
                systematic_reader.spec_bytes() == block@,
                systematic_reader.spec_order() == BitOrder::Msb0,
                systematic_reader.spec_pos() == i,
                parity_reader.wf(),
                parity_reader.spec_bytes() == parity@,
                parity_reader.spec_order() == BitOrder::Msb0,
                parity_reader.spec_pos() == first_kept_before(rate, i as int),
                parity@.len() * 8 >= parity_bit_count(rate, n as int),
                first_puncturer.wf(),
                second_puncturer.wf(),
                puncturers_of(rate, first_puncturer, second_puncturer),
                first_puncturer.spec_position() as int == (i as int) % (first_puncturer.spec_period() as int),
                second_puncturer.spec_position() == 0,
                forall|j: int| 0 <= j < i ==> #[trigger] symbols@[j] == without_second(decoder_symbol(rate, block@, parity@, snr, j)),
            decreases n - i,
        {
            proof {
                lemma_kept_step(rate, i as int);
                lemma_kept_monotone(rate, (i + 1) as int, n as int);
                lemma_mod_succ(i as int, first_puncturer.spec_period() as int);
                vstd::arithmetic::div_mod::lemma_small_mod(first_puncturer.spec_position() as nat, first_puncturer.spec_period() as nat);
                assert(first_keeps(rate, i as int) == !punctures(first_puncturer.spec_period(), first_puncturer.spec_pattern(), i as int));
            }
            let systematic = llr_of(systematic_reader.read_bit().unwrap(), snr);
            let first_parity = if first_puncturer.read_output() {
                llr_of(parity_reader.read_bit().unwrap(), snr)
            } else {
                0
            };
            symbols.push(TurboSymbol { systematic, first_parity, second_parity: 0 });
            i = i + 1;
        }

        // Second encoder parity
        let mut i: usize = 0;
        proof {
            vstd::arithmetic::div_mod::lemma_small_mod(0, second_puncturer.spec_period() as nat);
        }
        while i < n
            invariant
                n == block@.len() * 8,
                snr > i16::MIN,
                i <= n,
                symbols@.len() == n,
                parity_reader.wf(),
                parity_reader.spec_bytes() == parity@,
                parity_reader.spec_order() == BitOrder::Msb0,
                parity_reader.spec_pos() == first_kept_before(rate, n as int) + second_kept_before(rate, i as int),
                parity@.len() * 8 >= parity_bit_count(rate, n as int),
                second_puncturer.wf(),
                puncturers_of(rate, first_puncturer, second_puncturer),
                second_puncturer.spec_position() as int == (i as int) % (second_puncturer.spec_period() as int),
                forall|j: int| 0 <= j < i ==> #[trigger] symbols@[j] == decoder_symbol(rate, block@, parity@, snr, j),
                forall|j: int| i <= j < n ==> #[trigger] symbols@[j] == without_second(decoder_symbol(rate, block@, parity@, snr, j)),
            decreases n - i,
        {
            proof {
                lemma_kept_step(rate, i as int);
                lemma_kept_monotone(rate, (i + 1) as int, n as int);
                lemma_mod_succ(i as int, second_puncturer.spec_period() as int);
                vstd::arithmetic::div_mod::lemma_small_mod(second_puncturer.spec_position() as nat, second_puncturer.spec_period() as nat);
                assert(second_keeps(rate, i as int) == !punctures(second_puncturer.spec_period(), second_puncturer.spec_pattern(), i as int));
            }
            if second_puncturer.read_output() {
                let second_parity = llr_of(parity_reader.read_bit().unwrap(), snr);
                let symbol = TurboSymbol {
                    systematic: symbols[i].systematic,
                    first_parity: symbols[i].first_parity,
                    second_parity,
                };
                symbols.set(i, symbol);
            }
            i = i + 1;
        }

        TurboDecoderInput {
            symbols,
            first_termination: first_termination.get_symbols(snr),
            second_termination: second_termination.get_symbols(snr),
        }
    }
}

/// Decoder input symbol `i` of a received block: the block bit and the
/// parity bits that rate matching kept for position `i`, as soft values, 0
/// where a parity bit was dropped.
pub open spec fn decoder_symbol(rate: CodeRate, block: Seq<u8>, parity: Seq<u8>, snr: Llr, i: int) -> TurboSymbol {
    TurboSymbol {
        systematic: spec_llr(msb0_bit(block, i), snr) as Llr,
        first_parity: if first_keeps(rate, i) {
            spec_llr(msb0_bit(parity, first_kept_before(rate, i)), snr) as Llr
        } else {
            0
        },
        second_parity: if second_keeps(rate, i) {
            spec_llr(msb0_bit(parity, first_kept_before(rate, (block.len() * 8) as int) + second_kept_before(rate, i)), snr) as Llr
        } else {
            0
        },
    }
}

spec fn without_second(t: TurboSymbol) -> TurboSymbol {
    TurboSymbol { second_parity: 0, ..t }
}

/// Hard decision on soft values: a positive value is a one. The bits are
/// packed most significant bit first.
pub fn hard_decision(llrs: &[Llr]) -> (r: Vec<u8>)
    requires
        llrs@.len() % 8 == 0,
    ensures
        r@.len() * 8 == llrs@.len(),
        forall|i: int| 0 <= i < llrs@.len() ==> #[trigger] msb0_bit(r@, i) == (llrs@[i] > 0),
{
    let mut bits: Vec<bool> = Vec::new();
    let mut i: usize = 0;
    while i < llrs.len()
        invariant
            i <= llrs@.len(),
            bits@.len() == i,
            forall|j: int| 0 <= j < i ==> #[trigger] bits@[j] == (llrs@[j] > 0),
        decreases llrs@.len() - i,
    {
        bits.push(llrs[i] > 0);
        i = i + 1;
    }
    pack_msb0(&bits)
}

/// The decoder input symbol that encoder output `output` at position `i`
/// should give: its systematic bit and the parity bits that rate matching
/// keeps at `i` as soft values, 0 for a dropped parity bit.
pub open spec fn encoded_symbol(rate: CodeRate, output: u8, snr: Llr, i: int) -> TurboSymbol {
    TurboSymbol {
        systematic: spec_llr(systematic_bit(output), snr) as Llr,
        first_parity: if first_keeps(rate, i) { spec_llr(first_parity_bit(output), snr) as Llr } else { 0 },
        second_parity: if second_keeps(rate, i) { spec_llr(second_parity_bit(output), snr) as Llr } else { 0 },
    }
}

/// Rate matching and the decoder input agree: built from the bytes that an
/// encoder output collected, the decoder input carries at every position
/// the soft values of that position's own systematic bit and kept parity
/// bits, and 0 where rate matching dropped a parity bit.
pub proof fn lemma_decoder_input_matches_encoder_output(o: &TurboEncoderOutput, r: &EncodeResult, snr: Llr, i: int)
    requires
        o.wf(),
        result_of(o, r),
        0 <= i < o.spec_outputs().len(),
    ensures
        decoder_symbol(o.spec_rate(), r.systematic@, r.parity@, snr, i)
            == encoded_symbol(o.spec_rate(), o.spec_outputs()[i], snr, i),
{
    let rate = o.spec_rate();
    let n = o.spec_outputs().len() as int;
    let p1 = o.spec_first_parity();
    let p2 = o.spec_second_parity();
    lemma_kept_step(rate, i);
    lemma_kept_monotone(rate, i + 1, n);
    assert(msb0_bit(r.systematic@, i) == o.spec_systematic()[i]);
    if first_keeps(rate, i) {
        let k = first_kept_before(rate, i);
        assert(msb0_bit(r.parity@, k) == (p1 + p2)[k]);
        assert(first_parity_bit(o.spec_outputs()[i]) == p1[k]);
    }
    if second_keeps(rate, i) {
        let k = second_kept_before(rate, i);
        assert(r.systematic@.len() * 8 == n);
        assert(msb0_bit(r.parity@, p1.len() + k) == (p1 + p2)[p1.len() + k]);
        assert(second_parity_bit(o.spec_outputs()[i]) == p2[k]);
    }
}

} // verus!
