//! Plain descriptions of discovered wireless devices and their endpoints.

use vstd::prelude::*;

verus! {

/// Identifier of an endpoint on a device: either a short 16-bit number from
/// the assigned range or a full 128-bit value (its sixteen bytes read with the
/// least significant byte first).
#[derive(Clone, Copy, Debug, PartialEq, Eq, Structural)]
pub enum Uuid {
    B16(u16),
    B128(u128),
}

/// An endpoint of a device that accepts commands and emits notifications.
#[derive(Clone, Copy, Debug, PartialEq, Eq, Structural)]
pub struct Characteristic {
    pub start_handle: u16,
    pub end_handle: u16,
    pub value_handle: u16,
    pub uuid: Uuid,
    pub properties: u8,
}

/// A discovered device: its address and the name it advertises, if any.
#[derive(Debug)]
pub struct PeripheralRef {
    pub address: [u8; 6],
    pub name: Option<String>,
}

/// Mathematical content of a [`PeripheralRef`].
pub struct PeripheralView {
    pub address: Seq<u8>,
    pub name: Option<Seq<char>>,
}

/// The view of an optional string: the characters it holds, if any.
pub open spec fn name_view(name: Option<String>) -> Option<Seq<char>> {
    match name {
        Some(text) => Some(text@),
        None => None,
    }
}

impl View for PeripheralRef {
    type V = PeripheralView;

    open spec fn view(&self) -> PeripheralView {
        PeripheralView { address: self.address@, name: name_view(self.name) }
    }
}

/// Copies an optional string.
pub fn clone_name(name: &Option<String>) -> (copy: Option<String>)
    ensures
        copy == *name,
        name_view(copy) == name_view(*name),
{
    match name {
        Some(text) => Some(text.clone()),
        None => None,
    }
}

impl Clone for PeripheralRef {
    fn clone(&self) -> (copy: Self)
        ensures
            copy == *self,
            copy@ == self@,
    {
        PeripheralRef { address: self.address, name: clone_name(&self.name) }
    }
}

/// Compares two device addresses byte by byte.
pub fn same_address(a: &[u8; 6], b: &[u8; 6]) -> (same: bool)
    ensures
        same == (a@ == b@),
{
    let same = a[0] == b[0] && a[1] == b[1] && a[2] == b[2] && a[3] == b[3] && a[4] == b[4]
        && a[5] == b[5];
    proof {
        if same {
            assert(a@ =~= b@);
        }
    }
    same
}

/// The upper-case hexadecimal digit for a value below sixteen.
pub open spec fn hex_digit(value: int) -> char {
    seq!['0', '1', '2', '3', '4', '5', '6', '7', '8', '9', 'A', 'B', 'C', 'D', 'E', 'F'][value]
}

/// The textual form of a device address: its six bytes, last byte first, each
/// as two upper-case hexadecimal digits, separated by colons.
pub open spec fn address_text(address: Seq<u8>) -> Seq<char> {
    Seq::new(
        17,
        |i: int|
            if i % 3 == 2 {
                ':'
            } else if i % 3 == 0 {
                hex_digit(address[5 - i / 3] as int / 16)
            } else {
                hex_digit(address[5 - i / 3] as int % 16)
            },
    )
}

/// Formats a device address through `btleplug::api::BDAddr`'s `Display`
/// implementation, which writes the six bytes from the last to the first as
/// `{:02X}` fields joined by colons.
#[verifier::external_body]
fn bdaddr_to_string(address: [u8; 6]) -> (text: String)
    ensures
        text@ == address_text(address@),
{
    btleplug::api::BDAddr { address }.to_string()
}

/// Distinct digit values have distinct digits.
proof fn lemma_hex_digit_injective(a: int, b: int)
    requires
        0 <= a < 16,
        0 <= b < 16,
        hex_digit(a) == hex_digit(b),
    ensures
        a == b,
{
}

/// Two six-byte addresses with the same text are the same address.
pub proof fn lemma_address_text_injective(a: Seq<u8>, b: Seq<u8>)
    requires
        a.len() == 6,
        b.len() == 6,
        address_text(a) == address_text(b),
    ensures
        a == b,
{
    assert forall|j: int| 0 <= j < 6 implies a[j] == b[j] by {
        let high = 3 * (5 - j);
        let low = high + 1;
        assert(high % 3 == 0 && high / 3 == 5 - j);
        assert(low % 3 == 1 && low / 3 == 5 - j);
        assert(address_text(a)[high] == hex_digit(a[j] as int / 16));
        assert(address_text(b)[high] == hex_digit(b[j] as int / 16));
        assert(address_text(a)[low] == hex_digit(a[j] as int % 16));
        assert(address_text(b)[low] == hex_digit(b[j] as int % 16));
        lemma_hex_digit_injective(a[j] as int / 16, b[j] as int / 16);
        lemma_hex_digit_injective(a[j] as int % 16, b[j] as int % 16);
    }
    assert(a =~= b);
}

impl PeripheralRef {
    /// The address in the textual form under which the device is known
    /// outside the gateway.
    pub fn address_string(&self) -> (text: String)
        ensures
            text@ == address_text(self.address@),
    {
        bdaddr_to_string(self.address)
    }
}

} // verus!
