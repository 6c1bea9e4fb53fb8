//! 128-bit identifiers for subjects, tenants and resources.

use vstd::arithmetic::power::pow;
use vstd::prelude::*;

verus! {

/// The thirty-two hexadecimal digits of a 128-bit value, the most
/// significant first, in lower case.
pub open spec fn hex_digits(value: u128) -> Seq<char> {
    Seq::new(32, |k: int| "0123456789abcdef"@[(value as int / pow(16, (31 - k) as nat)) % 16])
}

/// The canonical text of a 128-bit identifier: its hexadecimal digits in
/// five groups of eight, four, four, four and twelve, with a hyphen between
/// each two groups.
pub open spec fn hyphenated_text(value: u128) -> Seq<char> {
    let digits = hex_digits(value);
    digits.subrange(0, 8) + seq!['-'] + digits.subrange(8, 12) + seq!['-'] + digits.subrange(
        12,
        16,
    ) + seq!['-'] + digits.subrange(16, 20) + seq!['-'] + digits.subrange(20, 32)
}

/// Calls `uuid::Uuid::from_u128`, which takes the value as the sixteen
/// bytes of the identifier, the most significant first, and then
/// `to_string`, which writes the identifier by its `Display` impl: the
/// bytes as lower-case hexadecimal digits, hyphenated.
#[verifier::external_body]
fn format_hyphenated(value: u128) -> (text: String)
    ensures
        text@ == hyphenated_text(value),
{
    uuid::Uuid::from_u128(value).to_string()
}

/// A universally unique identifier, held as its 128-bit value.
#[derive(Clone, Copy, Debug, PartialEq, Eq, Hash, PartialOrd, Ord, Structural)]
pub struct Uuid {
    /// The 128 bits of the identifier.
    pub value: u128,
}

impl Uuid {
    /// The 128 bits of the identifier.
    pub open spec fn bits(self) -> u128 {
        self.value
    }

    /// The identifier with the given bits.
    pub open spec fn with_bits(value: u128) -> Uuid {
        Uuid { value }
    }

    /// The nil identifier, all bits zero.
    pub open spec fn spec_nil() -> Uuid {
        Uuid { value: 0 }
    }

    /// The identifier with the given 128-bit value.
    pub fn from_u128(value: u128) -> (id: Uuid)
        ensures
            id == Uuid::with_bits(value),
            id.bits() == value,
    {
        Uuid { value }
    }

    /// The 128-bit value of the identifier.
    pub fn as_u128(&self) -> (value: u128)
        ensures
            value == self.bits(),
    {
        self.value
    }

    /// The nil identifier, all bits zero.
    pub fn nil() -> (id: Uuid)
        ensures
            id == Uuid::spec_nil(),
            id.bits() == 0,
    {
        Uuid { value: 0 }
    }

    /// Whether this is the nil identifier.
    pub fn is_nil(&self) -> (nil: bool)
        ensures
            nil == (*self == Uuid::spec_nil()),
            nil == (self.bits() == 0),
    {
        self.value == 0
    }

    /// The canonical hyphenated text of the identifier.
    pub fn to_string(&self) -> (text: String)
        ensures
            text@ == hyphenated_text(self.bits()),
    {
        format_hyphenated(self.value)
    }
}

/// Appends every identifier of `source` to `target`, in order.
pub(crate) fn extend_ids(target: &mut Vec<Uuid>, source: &[Uuid])
    ensures
        final(target)@ == old(target)@ + source@,
{
    let mut k: usize = 0;
    while k < source.len()
        invariant
            k <= source.len(),
            target@ == old(target)@ + source@.take(k as int),
        decreases source.len() - k,
    {
        target.push(source[k]);
        proof {
            assert(source@.take(k + 1) == source@.take(k as int).push(source@[k as int]));
        }
        k += 1;
    }
    proof {
        assert(source@.take(source@.len() as int) == source@);
    }
}

/// A fresh vector with the identifiers of `source`, in order.
pub(crate) fn copy_ids(source: &[Uuid]) -> (copy: Vec<Uuid>)
    ensures
        copy@ == source@,
{
    let mut copy: Vec<Uuid> = Vec::new();
    extend_ids(&mut copy, source);
    copy
}

/// Whether `id` occurs in `ids`.
pub(crate) fn contains_id(ids: &[Uuid], id: Uuid) -> (found: bool)
    ensures
        found == ids@.contains(id),
{
    let mut k: usize = 0;
    while k < ids.len()
        invariant
            k <= ids.len(),
            forall|m: int| 0 <= m < k ==> ids@[m] != id,
        decreases ids.len() - k,
    {
        if ids[k] == id {
            return true;
        }
        k += 1;
    }
    false
}

impl Default for Uuid {
    /// The nil identifier.
    fn default() -> (id: Uuid)
        ensures
            id == Uuid::spec_nil(),
    {
        Uuid { value: 0 }
    }
}

} // verus!
