//! The two checksums of a LinkIQ frame, computed by the `crc` crate.

use vstd::prelude::*;

verus! {

/// CRC-16/EN-13757 of `data` (poly 0x3D65, init 0, no reflection, xorout 0xFFFF).
pub uninterp spec fn crc16_en13757(data: Seq<u8>) -> u16;

/// The LinkIQ block CRC-32 of `data` (poly 0xF4ACFB13, init 0, no
/// reflection, xorout 0).
pub uninterp spec fn crc32_linkiq(data: Seq<u8>) -> u32;

/// Relies on `crc::Crc::<u16>::checksum` with the catalog's
/// `CRC_16_EN_13757`: the checksum depends on the bytes alone.
#[verifier::external_body]
pub(crate) fn crc16(data: &[u8]) -> (r: u16)
    ensures
        r == crc16_en13757(data@),
{
    crc::Crc::<u16>::new(&crc::CRC_16_EN_13757).checksum(data)
}

/// Relies on `crc::Crc::<u32>::checksum` with the LinkIQ parameters: the
/// checksum depends on the bytes alone.
#[verifier::external_body]
pub(crate) fn crc32(data: &[u8]) -> (r: u32)
    ensures
        r == crc32_linkiq(data@),
{
    crc::Crc::<u32>::new(
        &crc::Algorithm {
            width: 32,
            poly: 0xf4acfb13,
            init: 0x00000000,
            refin: false,
            refout: false,
            xorout: 0x00000000,
            check: 0x6c9f84a8,
            residue: 0x00000000,
        },
    ).checksum(data)
}

} // verus!
