use vstd::prelude::*;

verus! {

/// One of the four LinkIQ frequency channels.
#[derive(PartialEq, Eq, Structural, Clone, Copy, Debug)]
pub enum Channel {
    A,
    B,
    C,
    D,
}

impl Channel {
    /// Position of the channel in the order A, B, C, D.
    pub open spec fn spec_index(self) -> nat {
        match self {
            Channel::A => 0,
            Channel::B => 1,
            Channel::C => 2,
            Channel::D => 3,
        }
    }

    /// The channel that follows in round-robin order A, B, C, D, A.
    pub open spec fn spec_next(self) -> Channel {
        match self {
            Channel::A => Channel::B,
            Channel::B => Channel::C,
            Channel::C => Channel::D,
            Channel::D => Channel::A,
        }
    }

    pub fn index(&self) -> (r: usize)
        ensures
            r == self.spec_index(),
    {
        match self {
            Channel::A => 0,
            Channel::B => 1,
            Channel::C => 2,
            Channel::D => 3,
        }
    }

    pub fn next(&self) -> (r: Channel)
        ensures
            r == self.spec_next(),
    {
        match self {
            Channel::A => Channel::B,
            Channel::B => Channel::C,
            Channel::C => Channel::D,
            Channel::D => Channel::A,
        }
    }

    /// Carrier frequency in Hz: 868.45 MHz plus 40 kHz per channel index.
    pub fn frequency(&self) -> (r: u32)
        ensures
            r == 868_450_000 + 40_000 * self.spec_index(),
    {
        let channel = self.index() as u32;
        868_450_000 + 40_000 * channel
    }
}

} // verus!
