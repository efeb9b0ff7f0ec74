//! Wireless M-Bus device address.

use vstd::prelude::*;

verus! {

/// A byte whose two nibbles are decimal digits.
pub open spec fn bcd_byte_valid(b: u8) -> bool {
    b / 16 <= 9 && b % 16 <= 9
}

/// Packed BCD of the lowest `digits` decimal digits of `n`, least
/// significant digit in the lowest nibble.
pub open spec fn bcd_pack(n: nat, digits: nat) -> nat
    decreases digits,
{
    if digits == 0 {
        0
    } else {
        n % 10 + 16 * bcd_pack(n / 10, (digits - 1) as nat)
    }
}

/// `v` shifted right by `k` bytes.
pub open spec fn shr_bytes(v: nat, k: nat) -> nat
    decreases k,
{
    if k == 0 {
        v
    } else {
        shr_bytes(v, (k - 1) as nat) / 256
    }
}

/// Byte `k` (0 = least significant) of a 32-bit value.
pub open spec fn byte_of(v: u32, k: nat) -> u8 {
    (shr_bytes(v as nat, k) % 256) as u8
}

/// A wireless M-Bus address: manufacturer, serial number, version and device
/// type.
#[derive(PartialEq, Eq, Structural, Clone, Copy, Debug)]
pub struct WMBusAddress {
    pub manufacturer_code: u16,
    /// Eight decimal digits in packed BCD, the most significant digit in the
    /// highest nibble (serial 12341234 is `0x1234_1234`).
    pub serial_number: u32,
    pub version: u8,
    pub device_type: u8,
}

/// The eight bytes of an address on air: manufacturer code little-endian,
/// the BCD serial least significant byte first, version, device type.
pub open spec fn address_bytes(a: WMBusAddress) -> Seq<u8> {
    seq![
        (a.manufacturer_code % 256) as u8,
        (a.manufacturer_code / 256) as u8,
        byte_of(a.serial_number, 0),
        byte_of(a.serial_number, 1),
        byte_of(a.serial_number, 2),
        byte_of(a.serial_number, 3),
        a.version,
        a.device_type,
    ]
}

/// The address that eight bytes hold (see `address_bytes`).
pub open spec fn address_from_bytes(b: Seq<u8>) -> WMBusAddress {
    WMBusAddress {
        manufacturer_code: (b[0] + 256 * b[1]) as u16,
        serial_number: (b[2] + 256 * b[3] + 65536 * b[4] + 16777216 * b[5]) as u32,
        version: b[6],
        device_type: b[7],
    }
}

/// The four serial bytes of `b` hold decimal digits only.
pub open spec fn serial_bytes_valid(b: Seq<u8>) -> bool {
    bcd_byte_valid(b[2]) && bcd_byte_valid(b[3]) && bcd_byte_valid(b[4]) && bcd_byte_valid(b[5])
}

impl WMBusAddress {
    /// Every nibble of the serial number is a decimal digit.
    pub open spec fn wf(self) -> bool {
        forall|k: nat| k < 4 ==> #[trigger] bcd_byte_valid(byte_of(self.serial_number, k))
    }

    /// An address with a decimal serial number of at most eight digits.
    pub fn new(manufacturer_code: u16, serial_number: u32, version: u8, device_type: u8) -> (r: Self)
        requires
            serial_number < 100_000_000,
        ensures
            r.manufacturer_code == manufacturer_code,
            r.serial_number == bcd_pack(serial_number as nat, 8),
            r.version == version,
            r.device_type == device_type,
    {
        let mut n: u32 = serial_number;
        let mut packed: u64 = 0;
        let mut weight: u64 = 1;
        let mut k: u32 = 0;
        while k < 8
            invariant
                k <= 8,
                weight == pow16(k as nat),
                packed < weight,
                packed + weight * bcd_pack(n as nat, (8 - k) as nat) == bcd_pack(serial_number as nat, 8),
            decreases 8 - k,
        {
            proof {
                lemma_pow16_bound(k as nat);
                lemma_bcd_pack_bound(n as nat, (8 - k) as nat);
                assert(bcd_pack(n as nat, (8 - k) as nat)
                    == n % 10 + 16 * bcd_pack((n / 10) as nat, (8 - k - 1) as nat));
                assert(weight * (n % 10 + 16 * bcd_pack((n / 10) as nat, (7 - k) as nat))
                    == weight * (n % 10) + (16 * weight) * bcd_pack((n / 10) as nat, (7 - k) as nat))
                    by (nonlinear_arith);
                assert(packed + weight * (n % 10) < 16 * weight) by (nonlinear_arith)
                    requires packed < weight, n % 10 <= 9;
            }
            packed = packed + weight * (n % 10) as u64;
            n = n / 10;
            weight = weight * 16;
            k = k + 1;
        }
        proof {
            lemma_pow16_bound(8);
            assert(k == 8);
            assert(bcd_pack(n as nat, 0) == 0);
            assert((8 - k) as nat == 0nat);
            assert(weight * bcd_pack(n as nat, 0) == 0) by (nonlinear_arith)
                requires bcd_pack(n as nat, 0) == 0;
            assert(packed == bcd_pack(serial_number as nat, 8));
            assert(packed < 0x1_0000_0000);
        }
        let packed = packed as u32;
        WMBusAddress { manufacturer_code, serial_number: packed, version, device_type }
    }
}

impl WMBusAddress {
    /// The eight bytes of the address as carried in the MBAL header.
    pub fn get_bytes(&self) -> (r: [u8; 8])
        ensures
            r@ == address_bytes(*self),
    {
        let s0 = self.serial_number;
        let s1 = s0 / 256;
        let s2 = s1 / 256;
        let s3 = s2 / 256;
        proof {
            reveal_with_fuel(shr_bytes, 4);
        }
        let bytes: [u8; 8] = [
            (self.manufacturer_code % 256) as u8,
            (self.manufacturer_code / 256) as u8,
            (s0 % 256) as u8,
            (s1 % 256) as u8,
            (s2 % 256) as u8,
            (s3 % 256) as u8,
            self.version,
            self.device_type,
        ];
        assert(bytes@ =~= address_bytes(*self));
        bytes
    }

    /// Reads an address from the first eight bytes of `value`. Fails when
    /// fewer than eight bytes are given or a serial nibble is not a decimal
    /// digit.
    pub fn try_from_slice(value: &[u8]) -> (r: Result<WMBusAddress, ()>)
        ensures
            value@.len() < 8 ==> r.is_err(),
            value@.len() >= 8 && !serial_bytes_valid(value@) ==> r.is_err(),
            value@.len() >= 8 && serial_bytes_valid(value@) ==> r == Ok::<WMBusAddress, ()>(address_from_bytes(value@)),
    {
        if value.len() < 8 {
            return Err(());
        }
        if !(value[2] / 16 <= 9 && value[2] % 16 <= 9 && value[3] / 16 <= 9 && value[3] % 16 <= 9
            && value[4] / 16 <= 9 && value[4] % 16 <= 9 && value[5] / 16 <= 9 && value[5] % 16 <= 9) {
            return Err(());
        }
        let manufacturer_code = (value[0] as u16) + 256 * (value[1] as u16);
        let serial_number = (value[2] as u32) + 256 * (value[3] as u32) + 65536 * (value[4] as u32)
            + 16777216 * (value[5] as u32);
        Ok(WMBusAddress { manufacturer_code, serial_number, version: value[6], device_type: value[7] })
    }
}

proof fn lemma_split_byte(x: nat, lo: nat, hi: nat)
    requires
        lo < 256,
        x == lo + 256 * hi,
    ensures
        x % 256 == lo,
        x / 256 == hi,
{
    vstd::arithmetic::div_mod::lemma_fundamental_div_mod_converse(x as int, 256, hi as int, lo as int);
}

/// The bytes of a well-formed address have a decimal serial and read back
/// as the address.
pub proof fn lemma_address_bytes_read_back(a: WMBusAddress)
    requires
        a.wf(),
    ensures
        serial_bytes_valid(address_bytes(a)),
        address_from_bytes(address_bytes(a)) == a,
{
    reveal_with_fuel(shr_bytes, 4);
    let v = a.serial_number as nat;
    assert(bcd_byte_valid(byte_of(a.serial_number, 0)));
    assert(bcd_byte_valid(byte_of(a.serial_number, 1)));
    assert(bcd_byte_valid(byte_of(a.serial_number, 2)));
    assert(bcd_byte_valid(byte_of(a.serial_number, 3)));
    let v1 = v / 256;
    let v2 = v1 / 256;
    let v3 = v2 / 256;
    vstd::arithmetic::div_mod::lemma_fundamental_div_mod(v as int, 256);
    vstd::arithmetic::div_mod::lemma_fundamental_div_mod(v1 as int, 256);
    vstd::arithmetic::div_mod::lemma_fundamental_div_mod(v2 as int, 256);
    assert(v3 < 256);
    vstd::arithmetic::div_mod::lemma_fundamental_div_mod(a.manufacturer_code as int, 256);
    assert(address_from_bytes(address_bytes(a)) == a);
}

/// Eight bytes with a decimal serial read as a well-formed address whose
/// bytes are those eight bytes.
pub proof fn lemma_bytes_read_back(b: Seq<u8>)
    requires
        b.len() == 8,
        serial_bytes_valid(b),
    ensures
        address_from_bytes(b).wf(),
        address_bytes(address_from_bytes(b)) == b,
{
    reveal_with_fuel(shr_bytes, 4);
    let w = b[2] + 256 * b[3] + 65536 * b[4] + 16777216 * b[5];
    lemma_split_byte(w as nat, b[2] as nat, (b[3] + 256 * b[4] + 65536 * b[5]) as nat);
    lemma_split_byte((b[3] + 256 * b[4] + 65536 * b[5]) as nat, b[3] as nat, (b[4] + 256 * b[5]) as nat);
    lemma_split_byte((b[4] + 256 * b[5]) as nat, b[4] as nat, b[5] as nat);
    lemma_split_byte(b[5] as nat, b[5] as nat, 0);
    lemma_split_byte((b[0] + 256 * b[1]) as nat, b[0] as nat, b[1] as nat);
    let c = address_from_bytes(b);
    assert(byte_of(c.serial_number, 0) == b[2]);
    assert(byte_of(c.serial_number, 1) == b[3]);
    assert(byte_of(c.serial_number, 2) == b[4]);
    assert(byte_of(c.serial_number, 3) == b[5]);
    assert forall|k: nat| k < 4 implies #[trigger] bcd_byte_valid(byte_of(c.serial_number, k)) by {
        if k == 0 {
        } else if k == 1 {
        } else if k == 2 {
        } else {
        }
    }
    assert(address_bytes(c) =~= b);
}

/// `get_bytes` and `try_from_slice` are inverse: reading back the bytes of
/// a well-formed address gives the address, and the bytes of the address
/// read from eight bytes with a decimal serial are those bytes.
pub proof fn lemma_address_round_trip(a: WMBusAddress, b: Seq<u8>)
    requires
        a.wf(),
        b.len() == 8,
        serial_bytes_valid(b),
    ensures
        serial_bytes_valid(address_bytes(a)),
        address_from_bytes(address_bytes(a)) == a,
        address_from_bytes(b).wf(),
        address_bytes(address_from_bytes(b)) == b,
{
    lemma_address_bytes_read_back(a);
    lemma_bytes_read_back(b);
}

pub open spec fn pow16(k: nat) -> nat
    decreases k,
{
    if k == 0 {
        1
    } else {
        16 * pow16((k - 1) as nat)
    }
}

proof fn lemma_pow16_bound(k: nat)
    requires
        k <= 8,
    ensures
        1 <= pow16(k) <= 0x1_0000_0000,
        k == 8 ==> pow16(k) == 0x1_0000_0000,
    decreases k,
{
    reveal_with_fuel(pow16, 9);
    if k > 0 {
        lemma_pow16_bound((k - 1) as nat);
    }
}

proof fn lemma_bcd_pack_bound(n: nat, digits: nat)
    ensures
        bcd_pack(n, digits) < pow16(digits),
    decreases digits,
{
    if digits > 0 {
        lemma_bcd_pack_bound(n / 10, (digits - 1) as nat);
    }
}

} // verus!
