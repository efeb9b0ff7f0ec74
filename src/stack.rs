//! The LinkIQ protocol stack: physical layer, M-Bus adaption layer and
//! application layer.

pub mod apl;
pub mod channel;
pub mod mbal;
pub mod phl;


use vstd::prelude::*;

use crate::fec::CodeRate;
use crate::fec::EncodeResult;
use crate::header::HeaderCodebook;
use apl::Apl;
use mbal::Mbal;
use phl::{Phl, ReadOutcome};
use crate::wmbus::WMBusAddress;

pub use channel::Channel;

verus! {

/// Received signal strength in dBm.
pub type Rssi = i16;

/// Why a frame could not be read.
#[derive(PartialEq, Eq, Structural, Clone, Copy, Debug)]
pub enum ReadError {
    Capacity,
    NotEnoughBytes,
    PhlDecodeError,
    MBalCrcError,
    MBalControlError,
    MBalAddressError,
    MBalCommandError,
}

/// Why a packet could not be written.
#[derive(PartialEq, Eq, Structural, Clone, Copy, Debug)]
pub enum WriteError {
    Capacity,
    /// The codebook holds no header codeword for the rate and length.
    NoHeaderCodeword,
}

/// Physical layer fields of a packet.
#[derive(PartialEq, Eq, Structural, Clone, Copy, Debug)]
pub struct PhlFields {
    pub code_rate: CodeRate,
    /// Hamming distance between the received header and its codeword.
    pub header_distance: usize,
    /// Turbo decoder iterations that the block needed; 0 when its CRC held
    /// as received.
    pub decode_iterations: usize,
    /// Bits of the received block that decoding corrected.
    pub decode_distance: usize,
}

/// Control field of the MBAL header.
#[derive(PartialEq, Eq, Structural, Clone, Copy, Debug)]
pub struct MbalControl {
    pub is_prioritized: bool,
}

/// Function code carried in the high nibble of the MBAL command byte.
#[derive(PartialEq, Eq, Structural, Clone, Copy, Debug)]
pub enum MbalFunctionCode {
    /// SND-NR, code 4.
    SendUnsolicitedApplicationData,
    /// SND-IR, code 6.
    SendInstallationRequest,
}

/// Command field of the MBAL header.
#[derive(PartialEq, Eq, Structural, Clone, Copy, Debug)]
pub struct MbalCommand {
    pub function_code: MbalFunctionCode,
}

/// M-Bus Adaption Layer fields of a packet.
#[derive(PartialEq, Eq, Structural, Clone, Copy, Debug)]
pub struct MbalFields {
    pub control: MbalControl,
    pub address: WMBusAddress,
    pub command: MbalCommand,
}

/// A LinkIQ packet.
pub struct Packet {
    pub rssi: Option<Rssi>,
    pub phl: Option<PhlFields>,
    pub mbal: Option<MbalFields>,
    pub mbus_data: Vec<u8>,
}

impl Packet {
    /// A packet with no fields and no data.
    pub fn new() -> (r: Packet)
        ensures
            r.rssi.is_none(),
            r.phl.is_none(),
            r.mbal.is_none(),
            r.mbus_data@.len() == 0,
    {
        Packet { rssi: None, phl: None, mbal: None, mbus_data: Vec::new() }
    }
}

/// The LinkIQ protocol stack.
pub struct Stack {
    phl: Phl,
}

impl Stack {
    pub closed spec fn spec_phl(&self) -> &Phl {
        &self.phl
    }

    pub open spec fn wf(&self) -> bool {
        self.spec_phl().wf()
    }

    /// A stack whose physical layer classifies headers against `codebook`.
    pub fn new(codebook: HeaderCodebook) -> (r: Self)
        requires
            codebook.wf(),
        ensures
            r.wf(),
            r.spec_phl().spec_codebook() == &codebook,
            r.spec_phl().spec_max_iterations() == phl::MAX_DECODE_ITERATIONS,
    {
        Stack { phl: Phl::new(Mbal::new(Apl::new()), codebook) }
    }

    /// The physical layer.
    pub fn phl(&self) -> (r: &Phl)
        ensures
            r == self.spec_phl(),
    {
        &self.phl
    }

    /// Reads a frame (see `Phl::read`).
    pub fn read(&self, buffer: &[u8]) -> (r: Result<ReadOutcome, ReadError>)
        requires
            self.wf(),
            buffer@.len() * 8 <= usize::MAX,
        ensures
            buffer@.len() * 8 < 84 || self.spec_phl().spec_codebook().spec_entries().len() == 0
                ==> r == Err::<ReadOutcome, ReadError>(ReadError::NotEnoughBytes),
            phl::read_cases(self.spec_phl(), buffer@, r),
    {
        self.phl.read(buffer)
    }

    /// The systematic block of a packet (see `Phl::write_block`).
    pub fn write_block(&self, packet: &Packet) -> (r: Result<Vec<u8>, WriteError>)
        requires
            packet.mbal.is_some(),
        ensures
            packet.mbus_data@.len() > apl::MBUS_DATA_MAX <==> r == Err::<Vec<u8>, WriteError>(WriteError::Capacity),
            packet.mbus_data@.len() <= apl::MBUS_DATA_MAX ==> r is Ok,
            r matches Ok(b) ==> b@ == phl::block_of(packet.mbal->Some_0, packet.mbus_data@),
            r matches Ok(b) ==> crate::interleaver::is_block_length((8 * b@.len()) as int),
    {
        self.phl.write_block(packet)
    }

    /// The frame of a packet whose block was encoded into `result` (see
    /// `Phl::write_frame`).
    pub fn write_frame(&self, packet: &Packet, result: &EncodeResult) -> (r: Result<Vec<u8>, WriteError>)
        requires
            self.wf(),
            packet.phl.is_some(),
            packet.mbus_data@.len() <= apl::MBUS_DATA_MAX,
            result.first_termination.0 < 64,
            result.second_termination.0 < 64,
        ensures
            (forall|k: int| 0 <= k < self.spec_phl().spec_codebook().spec_entries().len()
                ==> !(#[trigger] self.spec_phl().spec_codebook().spec_entries()[k].rate == packet.phl->Some_0.code_rate
                    && self.spec_phl().spec_codebook().spec_entries()[k].data_length == mbal::HEADER_SIZE + packet.mbus_data@.len()))
                <==> r == Err::<Vec<u8>, WriteError>(WriteError::NoHeaderCodeword),
            r is Ok || r == Err::<Vec<u8>, WriteError>(WriteError::NoHeaderCodeword),
            r matches Ok(frame) ==> phl::frame_holds(self.spec_phl().spec_codebook(), packet.phl->Some_0.code_rate,
                mbal::HEADER_SIZE + packet.mbus_data@.len(), result, frame@),
    {
        let rate = match &packet.phl {
            Some(f) => f.code_rate,
            None => return Err(WriteError::Capacity),
        };
        self.phl.write_frame(rate, mbal::HEADER_SIZE + packet.mbus_data.len(), result)
    }

    /// Length of the frame whose first bytes are in `buffer` (see
    /// `phl::get_frame_length`).
    pub fn get_frame_length(&self, buffer: &[u8]) -> (r: Result<usize, ReadError>)
        requires
            self.wf(),
            buffer@.len() * 8 <= usize::MAX,
        ensures
            buffer@.len() < phl::HEADER_SIZE || self.spec_phl().spec_codebook().spec_entries().len() == 0
                <==> r == Err::<usize, ReadError>(ReadError::NotEnoughBytes),
            r matches Ok(n) ==> n == phl::frame_length_of(phl::header_rate(self.spec_phl().spec_codebook(), buffer@),
                phl::header_data_length(self.spec_phl().spec_codebook(), buffer@)),
            r.is_ok() || r == Err::<usize, ReadError>(ReadError::NotEnoughBytes),
    {
        self.phl.get_frame_length(buffer)
    }
}

} // verus!
