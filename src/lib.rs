//! LinkIQ physical layer for wireless M-Bus metering telegrams: the coded
//! frame header, the block CRC, the turbo code framing around an external
//! turbo codec, the MBAL header, and the receive controller's decisions.

pub mod bits;
pub mod checksum;
pub mod ctrl;
pub mod fec;
pub mod header;
pub mod interleaver;
pub mod stack;
pub mod wmbus;
