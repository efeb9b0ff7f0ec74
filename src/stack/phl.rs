use vstd::prelude::*;

use super::apl::{Apl, MBUS_DATA_MAX};
use super::mbal::{function_code_of, mbal_crc_valid, mbal_fields_of, mbal_header, mbal_prefix, upper_read, Mbal, MBAL_MAX};
use crate::wmbus::{address_bytes, lemma_address_bytes_read_back};
use crate::checksum::crc16_en13757;
use super::{MbalFields, Packet, PhlFields, ReadError, WriteError};
use crate::bits::{extend_bytes, msb0_bit, pack_msb0, BitOrder, BitReader, load};
use crate::checksum::{crc32, crc32_linkiq};
use crate::fec::{
    bit_of, decoder_symbol, parity_bit_count, termination_symbol, CodeRate, EncodeResult,
    EncoderTermination, Llr, TurboDecoderInput,
};
use crate::header::{
    codeword_bits, distance, hamming, nearest_index, word_bits, HeaderCodebook, PhyCodedHeader,
};
use crate::interleaver::{self, is_block_length, QppInterleaver};

verus! {

/// Size of the coded physical header.
pub const HEADER_SIZE: usize = 12;

/// Largest frame: header and a rate 1/3 coded MBAL frame.
pub const MAX_FRAME_LENGTH: usize = HEADER_SIZE + 3 * MBAL_MAX;

/// Signal-to-noise value at which received hard bits enter the decoder.
pub const SNR: Llr = 4;

/// Default turbo decoder iteration budget.
pub const MAX_DECODE_ITERATIONS: usize = 10;

/// Frame length for a header carrying `rate` and `data_length`: header,
/// block of data and CRC-32, and the parity bytes.
pub open spec fn frame_length_of(rate: CodeRate, data_length: int) -> int {
    let block_length = data_length + 4;
    let parity_bits = match rate {
        CodeRate::OneThird => 2 * (block_length * 8),
        CodeRate::OneHalf => block_length * 8,
    };
    HEADER_SIZE + block_length + (parity_bits + 7) / 8
}

/// The 82 received header codeword bits: frame bits 2 to 83.
pub open spec fn received_word(buffer: Seq<u8>) -> Seq<bool> {
    Seq::new(82, |i: int| msb0_bit(buffer, i + 2))
}

/// Big-endian value of the four bytes of `s` at `at`.
pub open spec fn be32(s: Seq<u8>, at: int) -> int {
    s[at] * 16777216 + s[at + 1] * 65536 + s[at + 2] * 256 + s[at + 3]
}

/// The bytes over which the block CRC-32 runs: the data length as a byte,
/// then the data.
pub open spec fn crc_input(data_length: int, block: Seq<u8>) -> Seq<u8> {
    seq![data_length as u8] + block.subrange(0, data_length)
}

/// The block's last four bytes are the CRC-32 of its data, big-endian.
pub open spec fn block_crc_valid(data_length: int, block: Seq<u8>) -> bool {
    crc32_linkiq(crc_input(data_length, block)) == be32(block, data_length)
}

/// The four big-endian bytes of `v`.
pub open spec fn be32_bytes(v: u32) -> Seq<u8> {
    seq![
        (v / 16777216) as u8,
        ((v / 65536) % 256) as u8,
        ((v / 256) % 256) as u8,
        (v % 256) as u8,
    ]
}

/// The systematic block of an MBAL frame with application data `data`:
/// MBAL header, data, and the CRC-32.
pub open spec fn block_of(f: MbalFields, data: Seq<u8>) -> Seq<u8> {
    let upper = mbal_header(f) + data;
    upper + be32_bytes(crc32_linkiq(seq![upper.len() as u8] + upper))
}

/// Number of differing bits among the first `8 * n` of `a` and `b`.
pub open spec fn bit_distance(a: Seq<u8>, b: Seq<u8>) -> nat {
    hamming(Seq::new((a.len() * 8) as nat, |i: int| msb0_bit(a, i)), Seq::new((a.len() * 8) as nat, |i: int| msb0_bit(b, i)), (a.len() * 8) as nat)
}

/// The 96 header bits: two ones, the codeword, and the 12-bit termination
/// field most significant bit first.
pub open spec fn header_bit(word: u128, termination: u64, i: int) -> bool {
    if i < 2 {
        true
    } else if i < 84 {
        word_bits(word)[i - 2]
    } else {
        bit_of(termination as nat, (95 - i) as nat)
    }
}

/// Number of differing bits between two equally long byte strings.
pub fn bit_distance_of(first: &[u8], second: &[u8]) -> (r: usize)
    requires
        first@.len() == second@.len(),
        first@.len() * 8 <= usize::MAX,
    ensures
        r == bit_distance(first@, second@),
{
    let n = first.len() * 8;
    let ghost a = Seq::new((first@.len() * 8) as nat, |i: int| msb0_bit(first@, i));
    let ghost b = Seq::new((first@.len() * 8) as nat, |i: int| msb0_bit(second@, i));
    let mut d: usize = 0;
    let mut i: usize = 0;
    while i < n
        invariant
            n == first@.len() * 8,
            first@.len() == second@.len(),
            a == Seq::new((first@.len() * 8) as nat, |i: int| msb0_bit(first@, i)),
            b == Seq::new((first@.len() * 8) as nat, |i: int| msb0_bit(second@, i)),
            i <= n,
            d <= i,
            d == hamming(a, b, i as nat),
        decreases n - i,
    {
        let x = (first[i / 8] >> ((7 - i % 8) as u8)) & 1u8 == 1u8;
        let y = (second[i / 8] >> ((7 - i % 8) as u8)) & 1u8 == 1u8;
        proof {
            assert(a[i as int] == x);
            assert(b[i as int] == y);
        }
        if x != y {
            d = d + 1;
        }
        i = i + 1;
    }
    d
}

/// The 12 header bytes for a codeword and a termination field.
pub fn header_bytes(word: u128, termination: u64) -> (r: Vec<u8>)
    ensures
        r@.len() == HEADER_SIZE,
        forall|i: int| 0 <= i < 96 ==> #[trigger] msb0_bit(r@, i) == header_bit(word, termination, i),
{
    let mut bits: Vec<bool> = Vec::new();
    bits.push(true);
    bits.push(true);
    let word_bits_v = codeword_bits(word);
    let mut i: usize = 0;
    while i < 82
        invariant
            i <= 82,
            word_bits_v@ == word_bits(word),
            bits@.len() == 2 + i,
            forall|j: int| 0 <= j < 2 + i ==> #[trigger] bits@[j] == header_bit(word, termination, j),
        decreases 82 - i,
    {
        bits.push(word_bits_v[i]);
        i = i + 1;
    }
    let mut k: u64 = 12;
    while k > 0
        invariant
            k <= 12,
            bits@.len() == 96 - k,
            forall|j: int| 0 <= j < 96 - k ==> #[trigger] bits@[j] == header_bit(word, termination, j),
        decreases k,
    {
        k = k - 1;
        proof {
            lemma_bit_of_shift(termination, k);
        }
        bits.push((termination >> k) % 2 == 1);
    }
    pack_msb0(&bits)
}

proof fn lemma_bit_of_shift(v: u64, k: u64)
    requires
        k < 64,
    ensures
        ((v >> k) % 2 == 1) == bit_of(v as nat, k as nat),
    decreases k,
{
    if k == 0 {
        assert(v >> 0u64 == v) by (bit_vector);
    } else {
        lemma_bit_of_shift(v / 2, (k - 1) as u64);
        assert(v >> k == (v / 2) >> ((k - 1) as u64)) by (bit_vector)
            requires 0 < k < 64;
    }
}

/// Reads the header codeword bits of a frame and classifies them.
fn read_coded_header(codebook: &HeaderCodebook, buffer: &[u8]) -> (r: Option<(PhyCodedHeader, usize)>)
    requires
        buffer@.len() * 8 <= usize::MAX,
    ensures
        r.is_none() <==> buffer@.len() * 8 < 84 || codebook.spec_entries().len() == 0,
        r matches Some((h, d)) ==> {
            let k = nearest_index(codebook.spec_entries(), received_word(buffer@), codebook.spec_entries().len());
            &&& h.rate == codebook.spec_entries()[k].rate
            &&& h.data_length == codebook.spec_entries()[k].data_length
            &&& d == distance(codebook.spec_entries()[k].word, received_word(buffer@))
        },
{
    if buffer.len() * 8 < 84 {
        return None;
    }
    let mut reader = BitReader::from_slice(buffer, BitOrder::Msb0);
    let _ = reader.read_bits(2);
    let mut bits: Vec<bool> = Vec::new();
    let mut i: usize = 0;
    while i < 82
        invariant
            buffer@.len() * 8 >= 84,
            reader.wf(),
            reader.spec_bytes() == buffer@,
            reader.spec_order() == BitOrder::Msb0,
            reader.spec_pos() == 2 + i,
            i <= 82,
            bits@.len() == i,
            forall|j: int| 0 <= j < i ==> #[trigger] bits@[j] == msb0_bit(buffer@, j + 2),
        decreases 82 - i,
    {
        let b = reader.read_bit().unwrap();
        bits.push(b);
        i = i + 1;
    }
    assert(bits@ =~= received_word(buffer@));
    codebook.classify(&bits)
}

/// Length of the frame whose first bytes are in `buffer`, from its coded
/// header alone. Fails with `NotEnoughBytes` on fewer than 12 bytes or an
/// empty codebook.
pub fn get_frame_length(codebook: &HeaderCodebook, buffer: &[u8]) -> (r: Result<usize, ReadError>)
    requires
        codebook.wf(),
        buffer@.len() * 8 <= usize::MAX,
    ensures
        buffer@.len() < HEADER_SIZE || codebook.spec_entries().len() == 0 <==> r == Err::<usize, ReadError>(ReadError::NotEnoughBytes),
        r matches Ok(n) ==> {
            let k = nearest_index(codebook.spec_entries(), received_word(buffer@), codebook.spec_entries().len());
            n == frame_length_of(codebook.spec_entries()[k].rate, codebook.spec_entries()[k].data_length as int)
        },
        r.is_ok() || r == Err::<usize, ReadError>(ReadError::NotEnoughBytes),
{
    if buffer.len() < HEADER_SIZE {
        return Err(ReadError::NotEnoughBytes);
    }
    match read_coded_header(codebook, buffer) {
        Some((header, _)) => {
            proof {
                lemma_nearest_in_range(codebook, received_word(buffer@));
            }
            Ok(get_frame_length_from_header(&header))
        },
        None => Err(ReadError::NotEnoughBytes),
    }
}

proof fn lemma_nearest_in_range(codebook: &HeaderCodebook, bits: Seq<bool>)
    requires
        codebook.wf(),
        codebook.spec_entries().len() > 0,
    ensures
        0 <= nearest_index(codebook.spec_entries(), bits, codebook.spec_entries().len()) < codebook.spec_entries().len(),
        codebook.spec_entries()[nearest_index(codebook.spec_entries(), bits, codebook.spec_entries().len())].data_length <= 255,
{
    crate::header::lemma_nearest_is_minimal(codebook.spec_entries(), bits, codebook.spec_entries().len());
}

/// Frame length for a decoded header.
pub fn get_frame_length_from_header(header: &PhyCodedHeader) -> (r: usize)
    requires
        header.data_length <= 255,
    ensures
        r == frame_length_of(header.rate, header.data_length as int),
{
    let block_length = header.data_length + 4;
    let parity_bits = match header.rate {
        CodeRate::OneThird => 2 * (block_length * 8),
        CodeRate::OneHalf => block_length * 8,
    };
    HEADER_SIZE + block_length + (parity_bits + 7) / 8
}

/// The codebook entry that the header of `buffer` decodes to.
pub open spec fn header_index(codebook: &HeaderCodebook, buffer: Seq<u8>) -> int {
    nearest_index(codebook.spec_entries(), received_word(buffer), codebook.spec_entries().len())
}

/// Data length that the header of `buffer` carries.
pub open spec fn header_data_length(codebook: &HeaderCodebook, buffer: Seq<u8>) -> int {
    codebook.spec_entries()[header_index(codebook, buffer)].data_length as int
}

/// Code rate that the header of `buffer` carries.
pub open spec fn header_rate(codebook: &HeaderCodebook, buffer: Seq<u8>) -> CodeRate {
    codebook.spec_entries()[header_index(codebook, buffer)].rate
}

/// Hamming distance of the received header to its codeword.
pub open spec fn header_distance_of(codebook: &HeaderCodebook, buffer: Seq<u8>) -> int {
    distance(codebook.spec_entries()[header_index(codebook, buffer)].word, received_word(buffer)) as int
}

/// The systematic block (data and CRC-32) of the frame in `buffer`.
pub open spec fn received_block(codebook: &HeaderCodebook, buffer: Seq<u8>) -> Seq<u8> {
    buffer.subrange(12, 12 + header_data_length(codebook, buffer) + 4)
}

/// The parity bytes of the frame in `buffer`: everything after the block.
pub open spec fn received_parity(codebook: &HeaderCodebook, buffer: Seq<u8>) -> Seq<u8> {
    buffer.subrange(12 + header_data_length(codebook, buffer) + 4, buffer.len() as int)
}

/// `p` is the packet that the upper layers make of `payload` with the
/// physical layer fields `fields`.
pub open spec fn packet_from(p: &Packet, fields: PhlFields, payload: Seq<u8>) -> bool {
    match upper_read(payload) {
        Ok((f, d)) => p.rssi.is_none() && p.phl == Some(fields) && p.mbal == Some(f) && p.mbus_data@ == d,
        Err(_) => false,
    }
}

/// `r` is what the upper layers make of `payload`: the packet with
/// `fields`, or their error.
pub open spec fn upper_outcome(r: Result<Packet, ReadError>, fields: PhlFields, payload: Seq<u8>) -> bool {
    match upper_read(payload) {
        Ok(_) => r matches Ok(p) && packet_from(&p, fields, payload),
        Err(e) => r == Err::<Packet, ReadError>(e),
    }
}

/// What reading a frame gives before any turbo decoding.
pub enum ReadOutcome {
    /// The block CRC held as received.
    Decoded(Packet),
    /// The block must be turbo decoded; the session takes the decoder's hard
    /// decisions iteration by iteration.
    NeedsDecoding(DecodeSession),
}

/// What a decoding session decides after one decoder iteration.
pub enum DecodeStep {
    /// The CRC does not hold yet and the iteration budget is not spent.
    Continue,
    /// The CRC held, and this is what the upper layers made of the block;
    /// or the budget is spent (`PhlDecodeError`).
    Done(Result<Packet, ReadError>),
}

/// The session decided, and `res` is what the upper layers made of
/// `payload` with `fields`.
pub open spec fn step_done(r: DecodeStep, fields: PhlFields, payload: Seq<u8>) -> bool {
    match r {
        DecodeStep::Done(res) => upper_outcome(res, fields, payload),
        DecodeStep::Continue => false,
    }
}

/// The session gave up with `PhlDecodeError`.
pub open spec fn step_failed(r: DecodeStep) -> bool {
    match r {
        DecodeStep::Done(res) => res == Err::<Packet, ReadError>(ReadError::PhlDecodeError),
        DecodeStep::Continue => false,
    }
}

/// Turbo decoding of one frame whose block CRC failed: holds the decoder
/// input and checks the CRC of each iteration's hard decisions.
pub struct DecodeSession {
    rate: CodeRate,
    header_distance: usize,
    data_length: usize,
    block: Vec<u8>,
    input: TurboDecoderInput,
    interleaver: QppInterleaver,
    iterations: usize,
    max_iterations: usize,
    finished: bool,
    tried: Ghost<Seq<Seq<u8>>>,
    above: Mbal,
}

impl DecodeSession {
    pub closed spec fn spec_rate(&self) -> CodeRate { self.rate }
    pub closed spec fn spec_header_distance(&self) -> int { self.header_distance as int }
    pub closed spec fn spec_data_length(&self) -> int { self.data_length as int }
    pub closed spec fn spec_block(&self) -> Seq<u8> { self.block@ }
    pub closed spec fn spec_input(&self) -> &TurboDecoderInput { &self.input }
    pub closed spec fn spec_interleaver(&self) -> QppInterleaver { self.interleaver }
    pub closed spec fn spec_iterations(&self) -> int { self.iterations as int }
    pub closed spec fn spec_max_iterations(&self) -> int { self.max_iterations as int }
    pub closed spec fn spec_finished(&self) -> bool { self.finished }
    /// The hard decisions offered so far, one per iteration.
    pub closed spec fn spec_tried(&self) -> Seq<Seq<u8>> { self.tried@ }

    /// Until the session finishes, no hard decision offered so far passed
    /// the CRC.
    pub closed spec fn wf(&self) -> bool {
        &&& self.block@.len() == self.data_length + 4
        &&& self.data_length <= 255
        &&& self.iterations == self.tried@.len()
        &&& self.iterations <= self.max_iterations
        &&& !self.finished ==> forall|j: int| 0 <= j < self.tried@.len() ==> !block_crc_valid(self.data_length as int, #[trigger] self.tried@[j])
    }

    /// The turbo decoder input.
    pub fn input(&self) -> (r: &TurboDecoderInput)
        ensures
            r == self.spec_input(),
    {
        &self.input
    }

    /// The interleaver for the block.
    pub fn interleaver(&self) -> (r: QppInterleaver)
        ensures
            r == self.spec_interleaver(),
    {
        self.interleaver
    }

    /// Length of the block in bytes, as the hard decisions must have it.
    pub fn block_len(&self) -> (r: usize)
        ensures
            r == self.spec_block().len(),
    {
        self.block.len()
    }

    /// Iterations offered so far.
    pub fn iterations(&self) -> (r: usize)
        ensures
            r == self.spec_iterations(),
    {
        self.iterations
    }

    /// Whether the session has decided.
    pub fn is_finished(&self) -> (r: bool)
        ensures
            r == self.spec_finished(),
    {
        self.finished
    }

    /// Takes the hard decisions after the next decoder iteration. When their
    /// CRC holds, the block is passed up with the iteration count and the
    /// number of bits corrected; when it fails on the last iteration of the
    /// budget, decoding fails.
    pub fn step(&mut self, hard: &[u8]) -> (r: DecodeStep)
        requires
            old(self).wf(),
            !old(self).spec_finished(),
            old(self).spec_iterations() < old(self).spec_max_iterations(),
            hard@.len() == old(self).spec_block().len(),
        ensures
            final(self).wf(),
            final(self).spec_tried() == old(self).spec_tried().push(hard@),
            final(self).spec_iterations() == old(self).spec_iterations() + 1,
            final(self).spec_rate() == old(self).spec_rate(),
            final(self).spec_header_distance() == old(self).spec_header_distance(),
            final(self).spec_data_length() == old(self).spec_data_length(),
            final(self).spec_block() == old(self).spec_block(),
            final(self).spec_input() == old(self).spec_input(),
            final(self).spec_interleaver() == old(self).spec_interleaver(),
            final(self).spec_max_iterations() == old(self).spec_max_iterations(),
            forall|j: int| 0 <= j < old(self).spec_tried().len()
                ==> !block_crc_valid(old(self).spec_data_length(), #[trigger] old(self).spec_tried()[j]),
            block_crc_valid(old(self).spec_data_length(), hard@) ==> final(self).spec_finished()
                && step_done(r, (PhlFields {
                    code_rate: old(self).spec_rate(),
                    header_distance: old(self).spec_header_distance() as usize,
                    decode_iterations: final(self).spec_iterations() as usize,
                    decode_distance: bit_distance(old(self).spec_block(), hard@) as usize,
                }), hard@.subrange(0, old(self).spec_data_length())),
            !block_crc_valid(old(self).spec_data_length(), hard@) && final(self).spec_iterations() == final(self).spec_max_iterations()
                ==> final(self).spec_finished() && step_failed(r),
            !block_crc_valid(old(self).spec_data_length(), hard@) && final(self).spec_iterations() < final(self).spec_max_iterations()
                ==> !final(self).spec_finished() && (r is Continue),
    {
        self.iterations = self.iterations + 1;
        self.tried = Ghost(self.tried@.push(hard@));
        if is_block_crc_valid(self.data_length, hard) {
            self.finished = true;
            let distance = bit_distance_of(&self.block, hard);
            let fields = PhlFields {
                code_rate: self.rate,
                header_distance: self.header_distance,
                decode_iterations: self.iterations,
                decode_distance: distance,
            };
            let res = match self.above.read(&hard[0..self.data_length]) {
                Ok((f, d)) => Ok(Packet { rssi: None, phl: Some(fields), mbal: Some(f), mbus_data: d }),
                Err(e) => Err(e),
            };
            DecodeStep::Done(res)
        } else if self.iterations == self.max_iterations {
            self.finished = true;
            DecodeStep::Done(Err(ReadError::PhlDecodeError))
        } else {
            DecodeStep::Continue
        }
    }
}

/// Checks the CRC-32 at the end of a block against its data.
pub fn is_block_crc_valid(data_length: usize, block: &[u8]) -> (r: bool)
    requires
        block@.len() == data_length + 4,
        data_length <= 255,
    ensures
        r == block_crc_valid(data_length as int, block@),
{
    let mut input: Vec<u8> = Vec::new();
    input.push(data_length as u8);
    extend_bytes(&mut input, &block[0..data_length]);
    let actual = crc32(input.as_slice());
    let expected = (block[data_length] as u32) * 16777216 + (block[data_length + 1] as u32) * 65536
        + (block[data_length + 2] as u32) * 256 + (block[data_length + 3] as u32);
    proof {
        assert(input@ =~= crc_input(data_length as int, block@));
    }
    actual == expected
}

/// Physical layer.
pub struct Phl {
    above: Mbal,
    codebook: HeaderCodebook,
    max_decode_iterations: usize,
}

impl Phl {
    pub closed spec fn spec_codebook(&self) -> &HeaderCodebook {
        &self.codebook
    }

    pub closed spec fn spec_max_iterations(&self) -> usize {
        self.max_decode_iterations
    }

    pub open spec fn wf(&self) -> bool {
        self.spec_codebook().wf()
    }

    /// A physical layer that classifies headers against `codebook`, with the
    /// default iteration budget.
    pub fn new(above: Mbal, codebook: HeaderCodebook) -> (r: Self)
        requires
            codebook.wf(),
        ensures
            r.wf(),
            r.spec_codebook() == &codebook,
            r.spec_max_iterations() == MAX_DECODE_ITERATIONS,
    {
        Phl { above, codebook, max_decode_iterations: MAX_DECODE_ITERATIONS }
    }

    /// Sets the turbo decoder iteration budget.
    pub fn set_max_decode_iterations(&mut self, max: usize)
        ensures
            final(self).spec_max_iterations() == max,
            final(self).spec_codebook() == old(self).spec_codebook(),
    {
        self.max_decode_iterations = max;
    }

    /// Length of the frame whose first bytes are in `buffer`.
    pub fn get_frame_length(&self, buffer: &[u8]) -> (r: Result<usize, ReadError>)
        requires
            self.wf(),
            buffer@.len() * 8 <= usize::MAX,
        ensures
            buffer@.len() < HEADER_SIZE || self.spec_codebook().spec_entries().len() == 0
                <==> r == Err::<usize, ReadError>(ReadError::NotEnoughBytes),
            r matches Ok(n) ==> n == frame_length_of(header_rate(self.spec_codebook(), buffer@),
                header_data_length(self.spec_codebook(), buffer@)),
            r.is_ok() || r == Err::<usize, ReadError>(ReadError::NotEnoughBytes),
    {
        get_frame_length(&self.codebook, buffer)
    }

    /// The systematic block of a packet: MBAL header, application data and
    /// the CRC-32. Fails with `Capacity` when the data exceed
    /// `MBUS_DATA_MAX`.
    pub fn write_block(&self, packet: &Packet) -> (r: Result<Vec<u8>, WriteError>)
        requires
            packet.mbal.is_some(),
        ensures
            packet.mbus_data@.len() > MBUS_DATA_MAX <==> r == Err::<Vec<u8>, WriteError>(WriteError::Capacity),
            packet.mbus_data@.len() <= MBUS_DATA_MAX ==> r is Ok,
            r matches Ok(b) ==> b@ == block_of(packet.mbal->Some_0, packet.mbus_data@),
            r matches Ok(b) ==> is_block_length((8 * b@.len()) as int),
    {
        if packet.mbus_data.len() > MBUS_DATA_MAX {
            return Err(WriteError::Capacity);
        }
        let fields = match &packet.mbal {
            Some(f) => *f,
            None => return Err(WriteError::Capacity),
        };
        let mut block: Vec<u8> = Vec::new();
        self.above.write(&mut block, &fields, packet.mbus_data.as_slice());
        let ghost upper = block@;
        let mut input: Vec<u8> = Vec::new();
        input.push(block.len() as u8);
        extend_bytes(&mut input, block.as_slice());
        let crc = crc32(input.as_slice());
        block.push((crc / 16777216) as u8);
        block.push(((crc / 65536) % 256) as u8);
        block.push(((crc / 256) % 256) as u8);
        block.push((crc % 256) as u8);
        proof {
            assert(upper =~= mbal_header(fields) + packet.mbus_data@);
            assert(input@ =~= seq![upper.len() as u8] + upper);
            assert(block@ =~= block_of(fields, packet.mbus_data@));
        }
        Ok(block)
    }

    /// The frame for an encoded block of `data_length` data bytes: coded
    /// header with the termination field, systematic bytes, parity bytes.
    /// Fails with `NoHeaderCodeword` when the codebook has no codeword for
    /// the rate and length.
    pub fn write_frame(&self, rate: CodeRate, data_length: usize, result: &EncodeResult) -> (r: Result<Vec<u8>, WriteError>)
        requires
            self.wf(),
            result.first_termination.0 < 64,
            result.second_termination.0 < 64,
        ensures
            (forall|k: int| 0 <= k < self.spec_codebook().spec_entries().len()
                ==> !(#[trigger] self.spec_codebook().spec_entries()[k].rate == rate
                    && self.spec_codebook().spec_entries()[k].data_length == data_length))
                <==> r == Err::<Vec<u8>, WriteError>(WriteError::NoHeaderCodeword),
            r is Ok || r == Err::<Vec<u8>, WriteError>(WriteError::NoHeaderCodeword),
            r matches Ok(frame) ==> frame_holds(self.spec_codebook(), rate, data_length as int, result, frame@),
    {
        let word = match self.codebook.codeword(rate, data_length) {
            Some(w) => w,
            None => return Err(WriteError::NoHeaderCodeword),
        };
        let termination = result.termination();
        let mut frame = header_bytes(word, termination);
        let ghost header = frame@;
        extend_bytes(&mut frame, result.systematic.as_slice());
        extend_bytes(&mut frame, result.parity.as_slice());
        proof {
            assert forall|i: int| 0 <= i < 96 implies #[trigger] msb0_bit(frame@, i) == header_bit(word, termination, i) by {
                lemma_msb0_prefix(header, result.systematic@ + result.parity@, i);
                assert(frame@ =~= header + (result.systematic@ + result.parity@));
            }
            assert(frame@.subrange(12, (12 + result.systematic@.len()) as int) =~= result.systematic@);
            assert(frame@.subrange((12 + result.systematic@.len()) as int, frame@.len() as int) =~= result.parity@);
        }
        Ok(frame)
    }

    /// Reads a frame. When the block CRC holds as received, the packet is
    /// complete; otherwise a decoding session is returned, or
    /// `PhlDecodeError` when the block length has no interleaver or the
    /// iteration budget is zero.
    pub fn read(&self, buffer: &[u8]) -> (r: Result<ReadOutcome, ReadError>)
        requires
            self.wf(),
            buffer@.len() * 8 <= usize::MAX,
        ensures
            buffer@.len() * 8 < 84 || self.spec_codebook().spec_entries().len() == 0
                ==> r == Err::<ReadOutcome, ReadError>(ReadError::NotEnoughBytes),
            read_cases(self, buffer@, r),
    {
        let (header, header_distance) = match read_coded_header(&self.codebook, buffer) {
            Some(h) => h,
            None => return Err(ReadError::NotEnoughBytes),
        };
        proof {
            lemma_nearest_in_range(&self.codebook, received_word(buffer@));
        }
        let frame_length = get_frame_length_from_header(&header);
        if buffer.len() < frame_length {
            return Err(ReadError::NotEnoughBytes);
        }

        let mut reader = BitReader::from_slice(buffer, BitOrder::Msb0);
        let _ = reader.read_bits(42);
        let _ = reader.read_bits(42);
        let first_termination = EncoderTermination(reader.read_bits(6).unwrap());
        let second_termination = EncoderTermination(reader.read_bits(6).unwrap());

        let data_length = header.data_length;
        let block_length = data_length + 4;
        assert(data_length == header_data_length(&self.codebook, buffer@));
        assert(header.rate == header_rate(&self.codebook, buffer@));
        let block_end = HEADER_SIZE + block_length;
        let block = &buffer[HEADER_SIZE..block_end];

        let interleaver = match interleaver::new(8 * block_length) {
            Some(i) => i,
            None => return Err(ReadError::PhlDecodeError),
        };
        if is_block_crc_valid(data_length, block) {
            let fields = PhlFields {
                code_rate: header.rate,
                header_distance,
                decode_iterations: 0,
                decode_distance: 0,
            };
            match self.above.read(&block[0..data_length]) {
                Ok((f, d)) => Ok(ReadOutcome::Decoded(Packet { rssi: None, phl: Some(fields), mbal: Some(f), mbus_data: d })),
                Err(e) => Err(e),
            }
        } else {
            if self.max_decode_iterations == 0 {
                return Err(ReadError::PhlDecodeError);
            }
            let parity = &buffer[block_end..buffer.len()];
            let input = TurboDecoderInput::new(header.rate, block, parity, first_termination, second_termination, SNR);
            let mut block_copy: Vec<u8> = Vec::new();
            extend_bytes(&mut block_copy, block);
            proof {
                assert(block_copy@ =~= block@);
                assert(block@ == received_block(&self.codebook, buffer@));
                assert(parity@ == received_parity(&self.codebook, buffer@));
                crate::bits::lemma_load_bound(BitOrder::Msb0, buffer@, 84, 6);
                crate::bits::lemma_load_bound(BitOrder::Msb0, buffer@, 90, 6);
                vstd::arithmetic::power2::lemma2_to64();
            }
            Ok(ReadOutcome::NeedsDecoding(DecodeSession {
                rate: header.rate,
                header_distance,
                data_length,
                block: block_copy,
                input,
                interleaver,
                iterations: 0,
                max_iterations: self.max_decode_iterations,
                finished: false,
                tried: Ghost(Seq::empty()),
                above: Mbal::new(Apl::new()),
            }))
        }
    }
}

/// `frame` is the frame of `result` under a codeword of the codebook for
/// `(rate, data_length)`: its 96 header bits carry that codeword and the
/// termination field, then come the systematic and the parity bytes.
pub open spec fn frame_holds(cb: &HeaderCodebook, rate: CodeRate, data_length: int, result: &EncodeResult, frame: Seq<u8>) -> bool {
    &&& frame.len() == HEADER_SIZE + result.systematic@.len() + result.parity@.len()
    &&& exists|k: int| 0 <= k < cb.spec_entries().len() && #[trigger] cb.spec_entries()[k].rate == rate
        && cb.spec_entries()[k].data_length == data_length
        && forall|i: int| 0 <= i < 96 ==> #[trigger] msb0_bit(frame, i)
            == header_bit(cb.spec_entries()[k].word, result.spec_termination() as u64, i)
    &&& frame.subrange(12, (12 + result.systematic@.len()) as int) == result.systematic@
    &&& frame.subrange((12 + result.systematic@.len()) as int, frame.len() as int) == result.parity@
}

/// A bit within the first bytes of a sequence is the bit of those bytes.
pub proof fn lemma_msb0_prefix(a: Seq<u8>, b: Seq<u8>, i: int)
    requires
        0 <= i < a.len() * 8,
    ensures
        msb0_bit(a + b, i) == msb0_bit(a, i),
{
    vstd::arithmetic::div_mod::lemma_fundamental_div_mod(i, 8);
    assert(i / 8 < a.len()) by (nonlinear_arith)
        requires 0 <= i < a.len() * 8, i == 8 * (i / 8) + i % 8, 0 <= i % 8 < 8;
    assert(i / 8 >= 0) by (nonlinear_arith)
        requires 0 <= i, i == 8 * (i / 8) + i % 8, 0 <= i % 8 < 8;
}

/// The outcome of reading `buffer` once its header has been classified:
/// too short for the frame length, `PhlDecodeError` for a block length
/// without interleaver, the packet when the block CRC holds,
/// `PhlDecodeError` when the budget allows no iteration, else a session
/// set up with the block, the parity and the terminations.
pub open spec fn read_cases(phl: &Phl, buffer: Seq<u8>, r: Result<ReadOutcome, ReadError>) -> bool {
    let cb = phl.spec_codebook();
    let rate = header_rate(cb, buffer);
    let dl = header_data_length(cb, buffer);
    let block = received_block(cb, buffer);
    buffer.len() * 8 >= 84 && cb.spec_entries().len() > 0 ==> {
        &&& buffer.len() < frame_length_of(rate, dl) ==> r == Err::<ReadOutcome, ReadError>(ReadError::NotEnoughBytes)
        &&& buffer.len() >= frame_length_of(rate, dl) && !is_block_length(8 * (dl + 4))
            ==> r == Err::<ReadOutcome, ReadError>(ReadError::PhlDecodeError)
        &&& buffer.len() >= frame_length_of(rate, dl) && is_block_length(8 * (dl + 4))
            && block_crc_valid(dl, block) ==> match upper_read(block.subrange(0, dl)) {
            Ok(_) => match r {
                Ok(ReadOutcome::Decoded(p)) => packet_from(&p, PhlFields {
                    code_rate: rate,
                    header_distance: header_distance_of(cb, buffer) as usize,
                    decode_iterations: 0,
                    decode_distance: 0,
                }, block.subrange(0, dl)),
                _ => false,
            },
            Err(e) => r == Err::<ReadOutcome, ReadError>(e),
        }
        &&& buffer.len() >= frame_length_of(rate, dl) && is_block_length(8 * (dl + 4))
            && !block_crc_valid(dl, block) && phl.spec_max_iterations() == 0
            ==> r == Err::<ReadOutcome, ReadError>(ReadError::PhlDecodeError)
        &&& buffer.len() >= frame_length_of(rate, dl) && !block_crc_valid(dl, block)
            && is_block_length(8 * (dl + 4)) && phl.spec_max_iterations() > 0
            ==> match r {
                Ok(ReadOutcome::NeedsDecoding(s)) => session_for(s, phl, buffer),
                _ => false,
            }
    }
}

/// `s` is the decoding session for the frame in `buffer`: nothing tried
/// yet, and the decoder input made from the received block, parity and
/// termination words at `SNR`.
pub open spec fn session_for(s: DecodeSession, phl: &Phl, buffer: Seq<u8>) -> bool {
    let cb = phl.spec_codebook();
    let dl = header_data_length(cb, buffer);
    let block = received_block(cb, buffer);
    &&& s.wf()
    &&& !s.spec_finished()
    &&& s.spec_iterations() == 0
    &&& s.spec_max_iterations() == phl.spec_max_iterations()
    &&& s.spec_rate() == header_rate(cb, buffer)
    &&& s.spec_data_length() == dl
    &&& s.spec_header_distance() == header_distance_of(cb, buffer)
    &&& s.spec_block() == block
    &&& s.spec_interleaver().length == 8 * (dl + 4)
    &&& s.spec_input().symbols@.len() == 8 * (dl + 4)
    &&& forall|i: int| 0 <= i < 8 * (dl + 4) ==> #[trigger] s.spec_input().symbols@[i]
        == decoder_symbol(header_rate(cb, buffer), block, received_parity(cb, buffer), SNR, i)
    &&& forall|k: int| 0 <= k < 3 ==> #[trigger] s.spec_input().first_termination[k]
        == termination_symbol(load(BitOrder::Msb0, buffer, 84, 6), k, SNR)
    &&& forall|k: int| 0 <= k < 3 ==> #[trigger] s.spec_input().second_termination[k]
        == termination_symbol(load(BitOrder::Msb0, buffer, 90, 6), k, SNR)
}

proof fn lemma_be32_bytes(c: u32)
    ensures
        be32(be32_bytes(c), 0) == c,
{
    let b = be32_bytes(c);
    vstd::arithmetic::div_mod::lemma_fundamental_div_mod(c as int, 256);
    vstd::arithmetic::div_mod::lemma_fundamental_div_mod(c as int / 256, 256);
    vstd::arithmetic::div_mod::lemma_fundamental_div_mod(c as int / 65536, 256);
    vstd::arithmetic::div_mod::lemma_div_denominator(c as int, 256, 256);
    vstd::arithmetic::div_mod::lemma_div_denominator(c as int, 65536, 256);
    assert(c as int / 16777216 < 256);
}

proof fn lemma_u16_split(c: u16)
    ensures
        ((c / 256) as u8) * 256 + ((c % 256) as u8) == c,
{
    vstd::arithmetic::div_mod::lemma_fundamental_div_mod(c as int, 256);
}

/// The upper layers read back the header of `f` followed by `data`.
proof fn lemma_upper_read_back(f: MbalFields, data: Seq<u8>)
    requires
        f.address.wf(),
        data.len() <= MBUS_DATA_MAX,
    ensures
        upper_read(mbal_header(f) + data) == Ok::<(MbalFields, Seq<u8>), ReadError>((f, data)),
{
    let buf = mbal_header(f) + data;
    let prefix = mbal_prefix(f);
    lemma_address_bytes_read_back(f.address);
    lemma_u16_split(crc16_en13757(prefix));
    assert(buf.subrange(0, 10) =~= prefix);
    assert(mbal_crc_valid(buf));
    assert(buf.subrange(1, 9) =~= address_bytes(f.address));
    assert(buf.subrange(12, buf.len() as int) =~= data);
    assert(function_code_of(buf[9] / 16) == Some(f.command.function_code));
    assert(mbal_fields_of(buf) == f);
}

/// The block of `f` and `data` passes its CRC.
proof fn lemma_block_crc_valid(f: MbalFields, data: Seq<u8>)
    requires
        data.len() <= MBUS_DATA_MAX,
    ensures
        block_of(f, data).len() == HEADER_SIZE + data.len() + 4,
        block_crc_valid(HEADER_SIZE + data.len(), block_of(f, data)),
        block_of(f, data).subrange(0, HEADER_SIZE + data.len()) == mbal_header(f) + data,
{
    let upper = mbal_header(f) + data;
    let block = block_of(f, data);
    let dl = upper.len() as int;
    let c = crc32_linkiq(seq![upper.len() as u8] + upper);
    assert(block.subrange(0, dl) =~= upper);
    assert(crc_input(dl, block) =~= seq![upper.len() as u8] + upper);
    lemma_be32_bytes(c);
    assert(block.subrange(dl, dl + 4) =~= be32_bytes(c));
}

/// The header of a frame made under the codebook decodes, at distance 0, to
/// the rate and data length it was made for.
proof fn lemma_header_read_back(cb: &HeaderCodebook, rate: CodeRate, data_length: int, result: &EncodeResult, frame: Seq<u8>)
    requires
        cb.wf(),
        frame_holds(cb, rate, data_length, result, frame),
    ensures
        cb.spec_entries().len() > 0,
        frame.len() * 8 >= 84,
        header_rate(cb, frame) == rate,
        header_data_length(cb, frame) == data_length,
        header_distance_of(cb, frame) == 0,
{
    let entries = cb.spec_entries();
    let k = choose|k: int| 0 <= k < entries.len() && #[trigger] entries[k].rate == rate
        && entries[k].data_length == data_length
        && forall|i: int| 0 <= i < 96 ==> #[trigger] msb0_bit(frame, i)
            == header_bit(entries[k].word, result.spec_termination() as u64, i);
    let w = entries[k].word;
    assert(received_word(frame) =~= word_bits(w)) by {
        assert forall|i: int| 0 <= i < 82 implies #[trigger] received_word(frame)[i] == word_bits(w)[i] by {
            assert(msb0_bit(frame, i + 2) == header_bit(w, result.spec_termination() as u64, i + 2));
        }
    }
    let bits = received_word(frame);
    crate::header::lemma_nearest_is_minimal(entries, bits, entries.len());
    crate::header::lemma_hamming_self(word_bits(w), 82);
    let j = header_index(cb, frame);
    assert(distance(entries[j].word, bits) <= distance(entries[k].word, bits));
    if j != k {
        assert(distance(entries[j].word, word_bits(entries[k].word)) > 0);
    }
}

/// Writing a packet and reading the frame back gives the packet: when the
/// block of the MBAL fields `f` and the application data `data` is encoded
/// by a systematic turbo encoder into `result`, and the frame is made from
/// it under the codebook, every outcome that `Phl::read` allows for that
/// frame is the packet with those fields, that data, the rate, no corrected
/// bits and no decoder iterations; and the frame's length is the one that
/// its header announces.
pub proof fn lemma_write_then_read(phl: &Phl, f: MbalFields, data: Seq<u8>, rate: CodeRate, result: &EncodeResult,
    frame: Seq<u8>, r: Result<ReadOutcome, ReadError>)
    requires
        phl.wf(),
        f.address.wf(),
        data.len() <= MBUS_DATA_MAX,
        result.systematic@ == block_of(f, data),
        result.parity@.len() * 8 == parity_bit_count(rate, (8 * result.systematic@.len()) as int),
        frame_holds(phl.spec_codebook(), rate, HEADER_SIZE + data.len(), result, frame),
        read_cases(phl, frame, r),
    ensures
        frame.len() == frame_length_of(header_rate(phl.spec_codebook(), frame), header_data_length(phl.spec_codebook(), frame)),
        match r {
            Ok(ReadOutcome::Decoded(p)) => {
                &&& p.phl == Some(PhlFields { code_rate: rate, header_distance: 0, decode_iterations: 0, decode_distance: 0 })
                &&& p.mbal == Some(f)
                &&& p.mbus_data@ == data
            },
            _ => false,
        },
{
    let cb = phl.spec_codebook();
    lemma_header_read_back(cb, rate, HEADER_SIZE + data.len(), result, frame);
    lemma_block_crc_valid(f, data);
    lemma_upper_read_back(f, data);
    let dl = HEADER_SIZE + data.len();
    let bl = dl + 4;
    assert(result.systematic@.len() == bl);
    let n = 8 * bl;
    match rate {
        CodeRate::OneThird => {
            vstd::arithmetic::div_mod::lemma_fundamental_div_mod_converse(2 * n + 7, 8, 2 * bl, 7);
        },
        CodeRate::OneHalf => {
            vstd::arithmetic::div_mod::lemma_fundamental_div_mod_converse(n + 1, 2, 4 * bl, 1);
            vstd::arithmetic::div_mod::lemma_fundamental_div_mod_converse(n, 2, 4 * bl, 0);
            vstd::arithmetic::div_mod::lemma_fundamental_div_mod_converse(n + 7, 8, bl, 7);
        },
    }
    assert(frame.len() == frame_length_of(rate, dl));
    assert(received_block(cb, frame) == block_of(f, data));
}

/// A frame that reads as a packet without turbo decoding has a received
/// block whose CRC-32 holds, and its packet reports no decoder iterations
/// and no corrected bits.
pub proof fn lemma_clean_read_has_valid_crc(phl: &Phl, buffer: Seq<u8>, r: Result<ReadOutcome, ReadError>)
    requires
        phl.wf(),
        read_cases(phl, buffer, r),
        buffer.len() * 8 < 84 || phl.spec_codebook().spec_entries().len() == 0
            ==> r == Err::<ReadOutcome, ReadError>(ReadError::NotEnoughBytes),
        r matches Ok(ReadOutcome::Decoded(_)),
    ensures
        block_crc_valid(header_data_length(phl.spec_codebook(), buffer), received_block(phl.spec_codebook(), buffer)),
        match r {
            Ok(ReadOutcome::Decoded(p)) => p.phl matches Some(fields) && fields.decode_iterations == 0 && fields.decode_distance == 0,
            _ => false,
        },
{
}

} // verus!
