//! Device addresses: a 48-bit hardware identifier plus an address-kind tag.
//! The pair is the unique key for all registry and event operations.

use vstd::prelude::*;
use vstd::string::StringSliceAdditionalSpecFns;

verus! {

/// Whether a device address is a fixed public address or a (possibly
/// rotating) random address.
#[derive(Debug, Clone, Copy, PartialEq, Eq, Hash, Structural)]
pub enum AddressKind {
    Public,
    Random,
}

/// A 48-bit Bluetooth device address together with its kind tag. Immutable
/// once obtained; the unique registry key.
#[derive(Debug, Clone, Copy, PartialEq, Eq, Hash, Structural)]
pub struct BDAddr {
    /// The 48-bit identifier, held in the low bits of a 64-bit word.
    pub bits: u64,
    /// The address-kind tag.
    pub kind: AddressKind,
}

/// The largest value a 48-bit identifier can take.
pub const ADDR_BITS_MAX: u64 = 0xFFFF_FFFF_FFFF;

impl BDAddr {
    /// A well-formed address uses only the low 48 bits.
    pub open spec fn wf(self) -> bool {
        self.bits <= ADDR_BITS_MAX
    }

    /// Builds an address from its 48-bit value and kind.
    pub fn new(bits: u64, kind: AddressKind) -> (r: BDAddr)
        requires
            bits <= ADDR_BITS_MAX,
        ensures
            r == (BDAddr { bits, kind }),
            r.wf(),
    {
        BDAddr { bits, kind }
    }

    /// Parses the textual form `"AA:BB:CC:DD:EE:FF"` (upper- or lower-case
    /// hexadecimal). The resulting address is tagged `Public`; callers that
    /// know the address to be random retag it. Returns `None` exactly when
    /// the text is not in that form.
    pub fn parse(s: &str) -> (r: Option<BDAddr>)
        ensures
            r is Some <==> valid_addr_bytes(s.spec_bytes()),
            r matches Some(a) ==> {
                &&& a.bits == addr_bits_of(s.spec_bytes())
                &&& a.kind == AddressKind::Public
                &&& a.wf()
            },
    {
        let b = s.as_bytes();
        if b.len() != 17 {
            return None;
        }
        if b[2] != 58 || b[5] != 58 || b[8] != 58 || b[11] != 58 || b[14] != 58 {
            return None;
        }
        let p0 = match parse_hex_pair(b[0], b[1]) {
            Some(v) => v,
            None => { return None; },
        };
        let p1 = match parse_hex_pair(b[3], b[4]) {
            Some(v) => v,
            None => { return None; },
        };
        let p2 = match parse_hex_pair(b[6], b[7]) {
            Some(v) => v,
            None => { return None; },
        };
        let p3 = match parse_hex_pair(b[9], b[10]) {
            Some(v) => v,
            None => { return None; },
        };
        let p4 = match parse_hex_pair(b[12], b[13]) {
            Some(v) => v,
            None => { return None; },
        };
        let p5 = match parse_hex_pair(b[15], b[16]) {
            Some(v) => v,
            None => { return None; },
        };
        let bits: u64 = (p0 as u64) * 0x100_0000_0000 + (p1 as u64) * 0x1_0000_0000 + (p2 as u64)
            * 0x100_0000 + (p3 as u64) * 0x1_0000 + (p4 as u64) * 0x100 + (p5 as u64);
        Some(BDAddr { bits, kind: AddressKind::Public })
    }
}

/// Whether `b` is an ASCII hexadecimal digit.
pub open spec fn is_hex_digit(b: u8) -> bool {
    (48 <= b <= 57) || (65 <= b <= 70) || (97 <= b <= 102)
}

/// The numeric value of an ASCII hexadecimal digit.
pub open spec fn hex_digit_value(b: u8) -> int
    recommends
        is_hex_digit(b),
{
    if 48 <= b <= 57 {
        b - 48
    } else if 65 <= b <= 70 {
        b - 55
    } else {
        b - 87
    }
}

/// Whether the bytes at `j` and `j + 1` are both hexadecimal digits.
pub open spec fn hex_pair_at(s: Seq<u8>, j: int) -> bool
    recommends
        0 <= j && j + 1 < s.len(),
{
    is_hex_digit(s[j]) && is_hex_digit(s[j + 1])
}

/// The value of the two-digit hexadecimal number at `j` and `j + 1`.
pub open spec fn pair_value(s: Seq<u8>, j: int) -> int
    recommends
        0 <= j && j + 1 < s.len(),
{
    16 * hex_digit_value(s[j]) + hex_digit_value(s[j + 1])
}

/// Whether `s` is the byte form of `"AA:BB:CC:DD:EE:FF"`: six hexadecimal
/// byte pairs separated by colons (byte 58).
pub open spec fn valid_addr_bytes(s: Seq<u8>) -> bool {
    &&& s.len() == 17
    &&& hex_pair_at(s, 0)
    &&& s[2] == 58
    &&& hex_pair_at(s, 3)
    &&& s[5] == 58
    &&& hex_pair_at(s, 6)
    &&& s[8] == 58
    &&& hex_pair_at(s, 9)
    &&& s[11] == 58
    &&& hex_pair_at(s, 12)
    &&& s[14] == 58
    &&& hex_pair_at(s, 15)
}

/// The 48-bit value encoded by a valid address text, most significant byte
/// first.
pub open spec fn addr_bits_of(s: Seq<u8>) -> int
    recommends
        valid_addr_bytes(s),
{
    pair_value(s, 0) * 0x100_0000_0000 + pair_value(s, 3) * 0x1_0000_0000 + pair_value(s, 6)
        * 0x100_0000 + pair_value(s, 9) * 0x1_0000 + pair_value(s, 12) * 0x100 + pair_value(s, 15)
}

/// The numeric value of one hexadecimal digit, or `None` if `b` is not one.
fn parse_hex_digit(b: u8) -> (r: Option<u8>)
    ensures
        r is Some <==> is_hex_digit(b),
        r matches Some(v) ==> v == hex_digit_value(b) && v < 16,
{
    if 48 <= b && b <= 57 {
        Some(b - 48)
    } else if 65 <= b && b <= 70 {
        Some(b - 55)
    } else if 97 <= b && b <= 102 {
        Some(b - 87)
    } else {
        None
    }
}

/// The value of a two-digit hexadecimal number, or `None` if either byte is
/// not a digit.
fn parse_hex_pair(hi: u8, lo: u8) -> (r: Option<u8>)
    ensures
        r is Some <==> is_hex_digit(hi) && is_hex_digit(lo),
        r matches Some(v) ==> v == 16 * hex_digit_value(hi) + hex_digit_value(lo),
{
    match (parse_hex_digit(hi), parse_hex_digit(lo)) {
        (Some(h), Some(l)) => Some(16 * h + l),
        _ => None,
    }
}

} // verus!
