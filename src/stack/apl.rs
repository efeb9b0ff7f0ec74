use vstd::prelude::*;

use super::mbal::{HEADER_SIZE, MBAL_MAX};
use super::ReadError;
use crate::bits::extend_bytes;

verus! {

/// Capacity of a packet's application data.
pub const MBUS_DATA_MAX: usize = 239;

/// Application layer: the bytes after the MBAL header, passed through.
pub struct Apl;

/// Application data read from `buffer`: the bytes themselves, or `Capacity`
/// when they exceed `MBUS_DATA_MAX`.
pub open spec fn apl_read(buffer: Seq<u8>) -> Result<Seq<u8>, ReadError> {
    if buffer.len() > MBUS_DATA_MAX {
        Err(ReadError::Capacity)
    } else {
        Ok(buffer)
    }
}

impl Apl {
    pub fn new() -> (r: Self) {
        assert(MBUS_DATA_MAX == MBAL_MAX - HEADER_SIZE);
        Apl
    }

    /// Copies `buffer` into a packet's data.
    pub fn read(&self, buffer: &[u8]) -> (r: Result<Vec<u8>, ReadError>)
        ensures
            r matches Ok(v) ==> apl_read(buffer@) == Ok::<Seq<u8>, ReadError>(v@),
            r matches Err(e) ==> apl_read(buffer@) == Err::<Seq<u8>, ReadError>(e),
    {
        if buffer.len() > MBUS_DATA_MAX {
            return Err(ReadError::Capacity);
        }
        let mut v: Vec<u8> = Vec::new();
        extend_bytes(&mut v, buffer);
        assert(v@ =~= buffer@);
        Ok(v)
    }
}

} // verus!
