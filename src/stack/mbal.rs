use vstd::prelude::*;

use super::apl::{apl_read, Apl};
use super::{MbalCommand, MbalControl, MbalFields, MbalFunctionCode, ReadError};
use crate::bits::extend_bytes;
use crate::checksum::{crc16, crc16_en13757};
use crate::wmbus::{address_bytes, address_from_bytes, serial_bytes_valid, WMBusAddress};

verus! {

/// Size of the MBAL header.
pub const HEADER_SIZE: usize = 12;

/// Largest MBAL frame: header and application data.
pub const MBAL_MAX: usize = 251;

/// Numeric value of a function code.
pub open spec fn function_code_value(c: MbalFunctionCode) -> u8 {
    match c {
        MbalFunctionCode::SendUnsolicitedApplicationData => 4,
        MbalFunctionCode::SendInstallationRequest => 6,
    }
}

/// The function code with numeric value `n`, if any.
pub open spec fn function_code_of(n: u8) -> Option<MbalFunctionCode> {
    if n == 4 {
        Some(MbalFunctionCode::SendUnsolicitedApplicationData)
    } else if n == 6 {
        Some(MbalFunctionCode::SendInstallationRequest)
    } else {
        None
    }
}

/// The first ten header bytes: control, address and command.
pub open spec fn mbal_prefix(f: MbalFields) -> Seq<u8> {
    seq![if f.control.is_prioritized { 1u8 } else { 0u8 }] + address_bytes(f.address)
        + seq![(function_code_value(f.command.function_code) * 16) as u8]
}

/// The twelve header bytes: the prefix and its CRC-16 big-endian.
pub open spec fn mbal_header(f: MbalFields) -> Seq<u8> {
    mbal_prefix(f) + seq![
        (crc16_en13757(mbal_prefix(f)) / 256) as u8,
        (crc16_en13757(mbal_prefix(f)) % 256) as u8,
    ]
}

/// The header fields that a buffer holds once it has passed every check.
pub open spec fn mbal_fields_of(buffer: Seq<u8>) -> MbalFields {
    MbalFields {
        control: MbalControl { is_prioritized: buffer[0] == 1 },
        address: address_from_bytes(buffer.subrange(1, 9)),
        command: MbalCommand { function_code: function_code_of(buffer[9] / 16)->Some_0 },
    }
}

/// The CRC-16 of the first ten bytes matches bytes 10 and 11, big-endian.
pub open spec fn mbal_crc_valid(buffer: Seq<u8>) -> bool {
    crc16_en13757(buffer.subrange(0, 10)) == buffer[10] * 256 + buffer[11]
}

/// What the MBAL and application layers read from `buffer`: the header
/// fields and the application data, or the first check that fails.
pub open spec fn upper_read(buffer: Seq<u8>) -> Result<(MbalFields, Seq<u8>), ReadError> {
    if buffer.len() < HEADER_SIZE {
        Err(ReadError::NotEnoughBytes)
    } else if !mbal_crc_valid(buffer) {
        Err(ReadError::MBalCrcError)
    } else if buffer[0] > 1 {
        Err(ReadError::MBalControlError)
    } else if !serial_bytes_valid(buffer.subrange(1, 9)) {
        Err(ReadError::MBalAddressError)
    } else if function_code_of(buffer[9] / 16).is_none() {
        Err(ReadError::MBalCommandError)
    } else {
        match apl_read(buffer.subrange(12, buffer.len() as int)) {
            Ok(data) => Ok((mbal_fields_of(buffer), data)),
            Err(e) => Err(e),
        }
    }
}

/// M-Bus Adaption Layer.
pub struct Mbal {
    above: Apl,
}

impl Mbal {
    pub fn new(above: Apl) -> (r: Self) {
        Mbal { above }
    }

    /// Reads the MBAL header and passes the rest to the application layer.
    pub fn read(&self, buffer: &[u8]) -> (r: Result<(MbalFields, Vec<u8>), ReadError>)
        ensures
            r matches Ok((f, d)) ==> upper_read(buffer@) == Ok::<(MbalFields, Seq<u8>), ReadError>((f, d@)),
            r matches Err(e) ==> upper_read(buffer@) == Err::<(MbalFields, Seq<u8>), ReadError>(e),
    {
        if buffer.len() < HEADER_SIZE {
            return Err(ReadError::NotEnoughBytes);
        }
        proof {
            assert(buffer@.subrange(0, 12).subrange(0, 10) =~= buffer@.subrange(0, 10));
            assert(mbal_crc_valid(buffer@.subrange(0, 12)) == mbal_crc_valid(buffer@));
        }
        if !is_valid_crc(&buffer[0..12]) {
            return Err(ReadError::MBalCrcError);
        }
        let is_prioritized = match buffer[0] {
            0 => false,
            1 => true,
            _ => return Err(ReadError::MBalControlError),
        };
        let address = match WMBusAddress::try_from_slice(&buffer[1..12]) {
            Ok(a) => a,
            Err(_) => return Err(ReadError::MBalAddressError),
        };
        proof {
            assert(buffer@.subrange(1, 12).subrange(0, 8) =~= buffer@.subrange(1, 9));
            assert(serial_bytes_valid(buffer@.subrange(1, 12)) == serial_bytes_valid(buffer@.subrange(1, 9)));
            assert(address_from_bytes(buffer@.subrange(1, 12)) == address_from_bytes(buffer@.subrange(1, 9)));
        }
        let function_code = match buffer[9] / 16 {
            4 => MbalFunctionCode::SendUnsolicitedApplicationData,
            6 => MbalFunctionCode::SendInstallationRequest,
            _ => return Err(ReadError::MBalCommandError),
        };
        let fields = MbalFields {
            control: MbalControl { is_prioritized },
            address,
            command: MbalCommand { function_code },
        };
        match self.above.read(&buffer[12..buffer.len()]) {
            Ok(data) => Ok((fields, data)),
            Err(e) => Err(e),
        }
    }

    /// Appends the MBAL header of `fields` and the application data to `out`.
    pub fn write(&self, out: &mut Vec<u8>, fields: &MbalFields, data: &[u8])
        ensures
            final(out)@ == old(out)@ + mbal_header(*fields) + data@,
    {
        let mut header: Vec<u8> = Vec::new();
        header.push(if fields.control.is_prioritized { 1u8 } else { 0u8 });
        let address = fields.address.get_bytes();
        extend_bytes(&mut header, &address);
        let code: u8 = match fields.command.function_code {
            MbalFunctionCode::SendUnsolicitedApplicationData => 4,
            MbalFunctionCode::SendInstallationRequest => 6,
        };
        header.push(code * 16);
        proof {
            assert(header@ =~= mbal_prefix(*fields));
        }
        let crc = crc16(header.as_slice());
        header.push((crc / 256) as u8);
        header.push((crc % 256) as u8);
        proof {
            assert(header@ =~= mbal_header(*fields));
        }
        extend_bytes(out, header.as_slice());
        extend_bytes(out, data);
        proof {
            assert(final(out)@ =~= old(out)@ + mbal_header(*fields) + data@);
        }
    }
}

/// Checks the CRC-16 at the end of a block against the bytes before it.
pub fn is_valid_crc(block: &[u8]) -> (r: bool)
    requires
        block@.len() == HEADER_SIZE,
    ensures
        r == mbal_crc_valid(block@),
{
    let actual = crc16(&block[0..10]);
    let expected = (block[10] as u16) * 256 + (block[11] as u16);
    actual == expected
}

} // verus!
