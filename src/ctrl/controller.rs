use vstd::prelude::*;

use super::noicefloor::{floor_step, NoiceFloor};
use crate::bits::extend_bytes;
use crate::header::HeaderCodebook;
use crate::stack::phl::{self, frame_length_of, header_data_length, header_rate, MAX_FRAME_LENGTH};
use crate::stack::{Channel, Rssi};

verus! {

/// Number of channels scanned.
pub const CHANNEL_COUNT: usize = 4;

/// Margin in dB above the noise floor at which a carrier is assumed.
pub const MIN_SNR: i8 = 4;

/// Initial noise floor of every channel, in dBm.
pub const INITIAL_NOISE_FLOOR: Rssi = -110;

/// How long a receive may wait for a preamble, in milliseconds.
pub const RECEIVE_TIMEOUT_MS: u64 = 12;

/// A transceiver operation that the controller asks for.
#[derive(PartialEq, Eq, Structural, Clone, Copy, Debug)]
pub enum Command {
    SetChannel(Channel),
    Transmit,
    Listen,
    Idle,
}

/// What to do after an RSSI sample.
#[derive(PartialEq, Eq, Structural, Clone, Copy, Debug)]
pub enum RssiDecision {
    /// A carrier is above the noise floor: receive, waiting at most
    /// `RECEIVE_TIMEOUT_MS` for at least this many bytes.
    Receive(usize),
    /// No carrier: the noise floor was updated; move to this channel.
    NextChannel(Channel),
}

/// State of a frame being received.
#[derive(PartialEq, Eq, Structural, Clone, Copy, Debug)]
pub enum FrameState {
    /// More bytes are needed.
    Incomplete,
    /// All bytes of the frame are in.
    Complete,
}

/// A frame being received or received: start-of-frame timestamp, RSSI and
/// bytes.
pub struct Frame {
    timestamp: u64,
    rssi: Option<Rssi>,
    buffer: Vec<u8>,
    len: Option<usize>,
}

impl Frame {
    pub closed spec fn spec_bytes(&self) -> Seq<u8> {
        self.buffer@
    }

    pub closed spec fn spec_len(&self) -> Option<usize> {
        self.len
    }

    pub closed spec fn spec_timestamp(&self) -> u64 {
        self.timestamp
    }

    pub closed spec fn spec_rssi(&self) -> Option<Rssi> {
        self.rssi
    }

    /// Start-of-frame timestamp.
    pub fn timestamp(&self) -> (r: u64)
        ensures
            r == self.spec_timestamp(),
    {
        self.timestamp
    }

    /// Signal strength at which the frame was detected.
    pub fn rssi(&self) -> (r: Option<Rssi>)
        ensures
            r == self.spec_rssi(),
    {
        self.rssi
    }

    /// An empty frame that started at `timestamp` with signal `rssi`.
    pub fn new(timestamp: u64, rssi: Option<Rssi>) -> (r: Self)
        ensures
            r.spec_timestamp() == timestamp,
            r.spec_rssi() == rssi,
            r.spec_bytes().len() == 0,
            r.spec_len().is_none(),
    {
        Frame { timestamp, rssi, buffer: Vec::new(), len: None }
    }

    /// Number of bytes received.
    pub fn received(&self) -> (r: usize)
        ensures
            r == self.spec_bytes().len(),
    {
        self.buffer.len()
    }

    /// Room left in the frame buffer.
    pub fn remaining(&self) -> (r: usize)
        ensures
            r == if self.spec_bytes().len() <= MAX_FRAME_LENGTH { MAX_FRAME_LENGTH - self.spec_bytes().len() } else { 0 },
    {
        if self.buffer.len() <= MAX_FRAME_LENGTH { MAX_FRAME_LENGTH - self.buffer.len() } else { 0 }
    }

    /// The frame length, once the header has been read.
    pub fn len(&self) -> (r: Option<usize>)
        ensures
            r == self.spec_len(),
    {
        self.len
    }

    /// The bytes of the frame: all received bytes up to its length.
    pub fn bytes(&self) -> (r: &[u8])
        requires
            self.spec_len() matches Some(n) && n <= self.spec_bytes().len(),
        ensures
            r@ == self.spec_bytes().subrange(0, self.spec_len()->Some_0 as int),
    {
        let n = match self.len {
            Some(n) => n,
            None => 0,
        };
        self.buffer.as_slice().split_at(n).0
    }
}

/// LinkIQ transceiver controller: owns the transceiver and decides which
/// channel to listen on, when to receive, and when a frame is complete.
pub struct Controller<T> {
    transceiver: T,
    listening: bool,
    current_channel: Channel,
    min_snr: i8,
    noise_floor: [NoiceFloor; CHANNEL_COUNT],
}

impl<T> Controller<T> {
    pub closed spec fn spec_listening(&self) -> bool {
        self.listening
    }

    pub closed spec fn spec_channel(&self) -> Channel {
        self.current_channel
    }

    /// Noise floor of channel `i`.
    pub closed spec fn spec_floor(&self, i: int) -> int {
        self.noise_floor[i].spec_value()
    }

    pub closed spec fn spec_transceiver(&self) -> T {
        self.transceiver
    }

    pub closed spec fn wf(&self) -> bool {
        &&& forall|i: int| 0 <= i < 4 ==> #[trigger] self.noise_floor[i].wf()
        &&& self.min_snr == MIN_SNR
    }

    /// A controller, not listening, on channel A, with every noise floor at
    /// `INITIAL_NOISE_FLOOR`.
    pub fn new(transceiver: T) -> (r: Self)
        ensures
            r.wf(),
            !r.spec_listening(),
            r.spec_channel() == Channel::A,
            forall|i: int| 0 <= i < 4 ==> #[trigger] r.spec_floor(i) == INITIAL_NOISE_FLOOR,
            r.spec_transceiver() == transceiver,
    {
        Controller {
            transceiver,
            listening: false,
            current_channel: Channel::A,
            min_snr: MIN_SNR,
            noise_floor: [
                NoiceFloor::new(INITIAL_NOISE_FLOOR),
                NoiceFloor::new(INITIAL_NOISE_FLOOR),
                NoiceFloor::new(INITIAL_NOISE_FLOOR),
                NoiceFloor::new(INITIAL_NOISE_FLOOR),
            ],
        }
    }

    /// The noise floor of each channel, A to D.
    pub fn noise_floor(&self) -> (r: [Rssi; CHANNEL_COUNT])
        ensures
            forall|i: int| 0 <= i < 4 ==> #[trigger] r[i] == self.spec_floor(i),
    {
        [
            self.noise_floor[0].value(),
            self.noise_floor[1].value(),
            self.noise_floor[2].value(),
            self.noise_floor[3].value(),
        ]
    }

    pub fn is_listening(&self) -> (r: bool)
        ensures
            r == self.spec_listening(),
    {
        self.listening
    }

    pub fn current_channel(&self) -> (r: Channel)
        ensures
            r == self.spec_channel(),
    {
        self.current_channel
    }

    /// The owned transceiver, for the caller that performs the commands.
    pub fn transceiver(&mut self) -> (r: &mut T)
        ensures
            *r == old(self).spec_transceiver(),
            final(self).spec_transceiver() == *final(r),
            final(self).spec_listening() == old(self).spec_listening(),
            final(self).spec_channel() == old(self).spec_channel(),
            old(self).wf() ==> final(self).wf(),
            forall|i: int| 0 <= i < 4 ==> #[trigger] final(self).spec_floor(i) == old(self).spec_floor(i),
    {
        &mut self.transceiver
    }

    /// Gives the transceiver back.
    pub fn release(self) -> (r: T)
        ensures
            r == self.spec_transceiver(),
    {
        self.transceiver
    }

    /// Transmission of written bytes on `channel`: switch to the channel,
    /// then transmit. Only while not listening.
    pub fn transmit(&mut self, channel: Channel) -> (r: Vec<Command>)
        requires
            !old(self).spec_listening(),
        ensures
            r@ == seq![Command::SetChannel(channel), Command::Transmit],
            final(self).spec_channel() == channel,
            !final(self).spec_listening(),
            old(self).wf() ==> final(self).wf(),
            final(self).spec_transceiver() == old(self).spec_transceiver(),
            forall|i: int| 0 <= i < 4 ==> #[trigger] final(self).spec_floor(i) == old(self).spec_floor(i),
    {
        self.current_channel = channel;
        vec![Command::SetChannel(channel), Command::Transmit]
    }

    /// Start of reception: program the current channel, then listen. The
    /// caller reports success with `receiver_started`.
    pub fn receive(&self) -> (r: Vec<Command>)
        requires
            !self.spec_listening(),
        ensures
            r@ == seq![Command::SetChannel(self.spec_channel()), Command::Listen],
    {
        vec![Command::SetChannel(self.current_channel), Command::Listen]
    }

    /// The receiver is running. It stays so, whatever becomes of the frames,
    /// until `idle` is reported.
    pub fn receiver_started(&mut self)
        ensures
            final(self).spec_listening(),
            final(self).spec_channel() == old(self).spec_channel(),
            old(self).wf() ==> final(self).wf(),
            final(self).spec_transceiver() == old(self).spec_transceiver(),
            forall|i: int| 0 <= i < 4 ==> #[trigger] final(self).spec_floor(i) == old(self).spec_floor(i),
    {
        self.listening = true;
    }

    /// The transceiver went idle.
    pub fn idle(&mut self)
        ensures
            !final(self).spec_listening(),
            final(self).spec_channel() == old(self).spec_channel(),
            old(self).wf() ==> final(self).wf(),
            final(self).spec_transceiver() == old(self).spec_transceiver(),
            forall|i: int| 0 <= i < 4 ==> #[trigger] final(self).spec_floor(i) == old(self).spec_floor(i),
    {
        self.listening = false;
    }

    /// Moves to the next channel in the order A, B, C, D, A.
    pub fn set_next_channel(&mut self) -> (r: Channel)
        ensures
            r == old(self).spec_channel().spec_next(),
            final(self).spec_channel() == r,
            final(self).spec_listening() == old(self).spec_listening(),
            old(self).wf() ==> final(self).wf(),
            final(self).spec_transceiver() == old(self).spec_transceiver(),
            forall|i: int| 0 <= i < 4 ==> #[trigger] final(self).spec_floor(i) == old(self).spec_floor(i),
    {
        self.current_channel = self.current_channel.next();
        self.current_channel
    }

    /// Decides on an RSSI sample of the current channel. Above the channel's
    /// noise floor by more than `MIN_SNR`: receive a frame header. Otherwise
    /// the sample updates the noise floor and the next channel is taken.
    pub fn on_rssi(&mut self, rssi: Rssi) -> (r: RssiDecision)
        requires
            old(self).wf(),
        ensures
            final(self).wf(),
            final(self).spec_listening() == old(self).spec_listening(),
            final(self).spec_transceiver() == old(self).spec_transceiver(),
            rssi > old(self).spec_floor(old(self).spec_channel().spec_index() as int) + MIN_SNR ==> {
                &&& r == RssiDecision::Receive(phl::HEADER_SIZE)
                &&& final(self).spec_channel() == old(self).spec_channel()
                &&& forall|i: int| 0 <= i < 4 ==> #[trigger] final(self).spec_floor(i) == old(self).spec_floor(i)
            },
            rssi <= old(self).spec_floor(old(self).spec_channel().spec_index() as int) + MIN_SNR ==> {
                &&& r == RssiDecision::NextChannel(old(self).spec_channel().spec_next())
                &&& final(self).spec_channel() == old(self).spec_channel().spec_next()
                &&& forall|i: int| 0 <= i < 4 ==> #[trigger] final(self).spec_floor(i) == if i == old(self).spec_channel().spec_index() {
                    floor_step(old(self).spec_floor(i), rssi as int)
                } else {
                    old(self).spec_floor(i)
                }
            },
    {
        let ch = self.current_channel.index();
        let floor = self.noise_floor[ch].value();
        if rssi as i32 > floor as i32 + self.min_snr as i32 {
            RssiDecision::Receive(phl::HEADER_SIZE)
        } else {
            let mut nf = self.noise_floor[ch];
            nf.add(rssi);
            self.noise_floor[ch] = nf;
            let next = self.set_next_channel();
            RssiDecision::NextChannel(next)
        }
    }

    /// Takes bytes read for the frame being received. Once the header is in,
    /// the frame length is derived; the caller announces it to the
    /// transceiver when `r.0` holds it.
    pub fn on_bytes(&self, codebook: &HeaderCodebook, frame: &mut Frame, bytes: &[u8]) -> (r: (Option<usize>, FrameState))
        requires
            codebook.wf(),
            old(frame).spec_bytes().len() + bytes@.len() <= MAX_FRAME_LENGTH,
        ensures
            final(frame).spec_bytes() == old(frame).spec_bytes() + bytes@,
            final(frame).spec_timestamp() == old(frame).spec_timestamp(),
            final(frame).spec_rssi() == old(frame).spec_rssi(),
            old(frame).spec_len().is_some() ==> final(frame).spec_len() == old(frame).spec_len() && r.0.is_none(),
            old(frame).spec_len().is_none() && final(frame).spec_bytes().len() >= phl::HEADER_SIZE
                && codebook.spec_entries().len() > 0 ==> {
                let n = frame_length_of(header_rate(codebook, final(frame).spec_bytes()),
                    header_data_length(codebook, final(frame).spec_bytes()));
                &&& r.0 == Some(n as usize)
                &&& final(frame).spec_len() == Some(n as usize)
            },
            old(frame).spec_len().is_none() && (final(frame).spec_bytes().len() < phl::HEADER_SIZE
                || codebook.spec_entries().len() == 0) ==> r.0.is_none() && final(frame).spec_len().is_none(),
            r.1 == if final(frame).spec_len() matches Some(n) && final(frame).spec_bytes().len() >= n {
                FrameState::Complete
            } else {
                FrameState::Incomplete
            },
    {
        extend_bytes(&mut frame.buffer, bytes);
        let mut accepted: Option<usize> = None;
        if frame.len.is_none() {
            match phl::get_frame_length(codebook, frame.buffer.as_slice()) {
                Ok(length) => {
                    frame.len = Some(length);
                    accepted = Some(length);
                },
                Err(_) => {},
            }
        }
        let state = match frame.len {
            Some(n) => if frame.buffer.len() >= n { FrameState::Complete } else { FrameState::Incomplete },
            None => FrameState::Incomplete,
        };
        (accepted, state)
    }

    /// After a read error: restart the receiver on the same channel.
    pub fn on_read_error(&self) -> (r: Vec<Command>)
        ensures
            r@ == seq![Command::Idle, Command::Listen],
    {
        vec![Command::Idle, Command::Listen]
    }
}

} // verus!
