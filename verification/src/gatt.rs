//! GATT identifiers: 128-bit UUIDs, characteristic property flags, and the
//! characteristic record that lives in a peripheral's ordered cache.

use vstd::prelude::*;

verus! {

/// A 128-bit service or characteristic identifier, held as one integer.
#[derive(Debug, Clone, Copy, PartialEq, Eq, Structural)]
pub struct Uuid {
    pub bits: u128,
}

impl Uuid {
    /// Builds an identifier from its 128-bit value.
    pub fn new(bits: u128) -> (r: Uuid)
        ensures
            r.bits == bits,
    {
        Uuid { bits }
    }
}

/// Flag bit: the characteristic may be broadcast.
pub const PROP_BROADCAST: u8 = 0x01;

/// Flag bit: the characteristic supports read.
pub const PROP_READ: u8 = 0x02;

/// Flag bit: the characteristic supports write without response.
pub const PROP_WRITE_WITHOUT_RESPONSE: u8 = 0x04;

/// Flag bit: the characteristic supports write with response.
pub const PROP_WRITE: u8 = 0x08;

/// Flag bit: the characteristic supports notifications.
pub const PROP_NOTIFY: u8 = 0x10;

/// Flag bit: the characteristic supports indications.
pub const PROP_INDICATE: u8 = 0x20;

/// Flag bit: the characteristic supports authenticated signed writes.
pub const PROP_AUTHENTICATED_SIGNED_WRITES: u8 = 0x40;

/// Flag bit: the characteristic has extended properties.
pub const PROP_EXTENDED_PROPERTIES: u8 = 0x80;

/// The set of operations a characteristic supports, as a bit-flag set over
/// the `PROP_*` bits.
#[derive(Debug, Clone, Copy, PartialEq, Eq, Structural)]
pub struct CharPropFlags {
    pub bits: u8,
}

impl CharPropFlags {
    /// Builds a flag set from raw bits. Every bit of a byte is a defined
    /// flag, so nothing is dropped.
    pub fn from_bits_truncate(bits: u8) -> (r: CharPropFlags)
        ensures
            r.bits == bits,
    {
        CharPropFlags { bits }
    }

    /// Whether every flag of `flag` is present in this set.
    pub fn contains(&self, flag: u8) -> (r: bool)
        ensures
            r == (self.bits & flag == flag),
    {
        self.bits & flag == flag
    }
}

/// One GATT data item on a peripheral: its identifier plus the supported
/// operations. Equality and ordering are over the `(uuid, properties)` pair,
/// so characteristics can live in an ordered unique cache.
#[derive(Debug, Clone, Copy, PartialEq, Eq, Structural)]
pub struct Characteristic {
    pub uuid: Uuid,
    pub properties: CharPropFlags,
}

/// Strict order on characteristics: by identifier, then by flag bits.
pub open spec fn char_lt(a: Characteristic, b: Characteristic) -> bool {
    a.uuid.bits < b.uuid.bits || (a.uuid.bits == b.uuid.bits
        && a.properties.bits < b.properties.bits)
}

impl Characteristic {
    /// Builds a characteristic record.
    pub fn new(uuid: Uuid, properties: CharPropFlags) -> (r: Characteristic)
        ensures
            r == (Characteristic { uuid, properties }),
    {
        Characteristic { uuid, properties }
    }

    /// Whether `self` comes strictly before `other` in the cache order.
    pub fn comes_before(&self, other: &Characteristic) -> (r: bool)
        ensures
            r == char_lt(*self, *other),
    {
        self.uuid.bits < other.uuid.bits || (self.uuid.bits == other.uuid.bits
            && self.properties.bits < other.properties.bits)
    }
}

/// A characteristic sequence is sorted strictly: no duplicates, ascending
/// `(uuid, properties)` order.
pub open spec fn chars_sorted(s: Seq<Characteristic>) -> bool {
    forall|i: int, j: int| 0 <= i < j < s.len() ==> char_lt(#[trigger] s[i], #[trigger] s[j])
}

} // verus!
