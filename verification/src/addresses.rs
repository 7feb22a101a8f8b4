//! Which addresses of the machine are worth showing at start-up. What
//! interfaces the machine has is for the caller to find out; which of them
//! count is decided here.

use crate::text::{
    contains, digits, has_part, lowercase, lowercase_form, push_digits, to_chars,
};
use vstd::prelude::*;
use vstd::string::*;

verus! {

/// The address of an interface, as far as it matters here.
#[derive(Clone, Copy, Debug, PartialEq, Eq)]
pub enum InterfaceAddress {
    /// An address of four bytes.
    V4([u8; 4]),
    /// An address of the newer kind; none of them is shown.
    V6,
}

/// One network interface of the machine.
#[derive(Debug)]
pub struct Interface {
    pub name: String,
    pub loopback: bool,
    pub address: InterfaceAddress,
}

/// Whether the name, in lower case, gives the interface away as one that
/// software put there.
pub open spec fn is_virtual_name(name: Seq<char>) -> bool {
    let lower = lowercase_form(name);
    ||| has_part(lower, "virtual"@)
    ||| has_part(lower, "vpn"@)
    ||| has_part(lower, "hyper-v"@)
    ||| has_part(lower, "docker"@)
    ||| has_part(lower, "vmware"@)
    ||| has_part(lower, "vbox"@)
}

/// Whether an address of four bytes is shown. Link-local addresses
/// (169.254) and the private range 172.16 to 172.31 are not; of 192.168
/// and 10 only 10.5.3.67 is; every other address is.
pub open spec fn is_shown(octets: Seq<u8>) -> bool {
    if octets[0] == 169 && octets[1] == 254 {
        false
    } else if octets[0] == 172 && 16 <= octets[1] <= 31 {
        false
    } else if (octets[0] == 192 && octets[1] == 168) || octets[0] == 10 {
        octets[0] == 10 && octets[1] == 5 && octets[2] == 3 && octets[3] == 67
    } else {
        true
    }
}

/// The address that an interface adds to the list, if it adds one: that of
/// an interface which is no loopback, does not look virtual and has an
/// address of four bytes that is shown.
pub open spec fn shown_address(interface: Interface) -> Option<Seq<u8>> {
    match interface.address {
        InterfaceAddress::V4(octets) => if !interface.loopback && !is_virtual_name(
            interface.name@,
        ) && is_shown(octets@) {
            Some(octets@)
        } else {
            None
        },
        InterfaceAddress::V6 => None,
    }
}

/// The addresses that the interfaces add to the list, in their order.
pub open spec fn shown_addresses(interfaces: Seq<Interface>) -> Seq<Seq<u8>>
    decreases interfaces.len(),
{
    if interfaces.len() == 0 {
        Seq::empty()
    } else {
        let before = shown_addresses(interfaces.drop_last());
        match shown_address(interfaces.last()) {
            Some(octets) => before.push(octets),
            None => before,
        }
    }
}

/// Four bytes as an address: in decimal, with full stops between.
pub open spec fn dotted(octets: Seq<u8>) -> Seq<char> {
    digits(octets[0] as nat) + seq!['.'] + digits(octets[1] as nat) + seq!['.'] + digits(
        octets[2] as nat,
    ) + seq!['.'] + digits(octets[3] as nat)
}

/// The list to show: the loopback address first, then what the interfaces
/// add.
pub open spec fn listing(interfaces: Seq<Interface>) -> Seq<Seq<char>> {
    seq![dotted(seq![127u8, 0u8, 0u8, 1u8])] + shown_addresses(interfaces).map_values(
        |octets: Seq<u8>| dotted(octets),
    )
}

/// Whether the name gives the interface away as virtual.
pub fn looks_virtual(name: &str) -> (found: bool)
    ensures
        found == is_virtual_name(name@),
{
    let lower = lowercase(name);
    let chars = to_chars(lower.as_str());
    contains(&chars, &to_chars("virtual")) || contains(&chars, &to_chars("vpn")) || contains(
        &chars,
        &to_chars("hyper-v"),
    ) || contains(&chars, &to_chars("docker")) || contains(&chars, &to_chars("vmware"))
        || contains(&chars, &to_chars("vbox"))
}

/// Whether an address of four bytes is shown.
pub fn address_is_shown(octets: &[u8; 4]) -> (shown: bool)
    ensures
        shown == is_shown(octets@),
{
    if octets[0] == 169 && octets[1] == 254 {
        false
    } else if octets[0] == 172 && octets[1] >= 16 && octets[1] <= 31 {
        false
    } else if (octets[0] == 192 && octets[1] == 168) || octets[0] == 10 {
        octets[0] == 10 && octets[1] == 5 && octets[2] == 3 && octets[3] == 67
    } else {
        true
    }
}

/// Four bytes written as an address.
pub fn dotted_text(octets: &[u8; 4]) -> (text: String)
    ensures
        text@ == dotted(octets@),
{
    proof {
        reveal_strlit(".");
    }
    let mut text: String = String::new();
    push_digits(&mut text, octets[0] as u64);
    text.append(".");
    push_digits(&mut text, octets[1] as u64);
    text.append(".");
    push_digits(&mut text, octets[2] as u64);
    text.append(".");
    push_digits(&mut text, octets[3] as u64);
    assert("."@ =~= seq!['.']);
    assert(text@ =~= dotted(octets@));
    text
}

/// The addresses to show for the interfaces of the machine: the loopback
/// address first, then the address of every interface that counts.
pub fn get_local_ip_addresses(interfaces: &Vec<Interface>) -> (addresses: Vec<String>)
    ensures
        addresses@.map_values(|text: String| text@) == listing(interfaces@),
{
    let loopback: [u8; 4] = [127, 0, 0, 1];
    let mut addresses: Vec<String> = Vec::new();
    addresses.push(dotted_text(&loopback));
    let ghost views = |text: String| text@;
    let ghost write = |octets: Seq<u8>| dotted(octets);
    assert(loopback@ =~= seq![127u8, 0u8, 0u8, 1u8]);
    assert(interfaces@.take(0) =~= Seq::empty());
    assert(addresses@.map_values(views) =~= listing(interfaces@.take(0)));
    let mut i: usize = 0;
    while i < interfaces.len()
        invariant
            i <= interfaces.len(),
            views == (|text: String| text@),
            addresses@.map_values(views) == listing(interfaces@.take(i as int)),
        decreases interfaces.len() - i,
    {
        let interface = &interfaces[i];
        proof {
            let next = interfaces@.take(i + 1);
            assert(next.drop_last() =~= interfaces@.take(i as int));
            assert(next.last() == interfaces@[i as int]);
        }
        let ghost before = addresses@;
        match interface.address {
            InterfaceAddress::V4(octets) => {
                if !interface.loopback && !looks_virtual(interface.name.as_str())
                    && address_is_shown(&octets) {
                    addresses.push(dotted_text(&octets));
                    assert(addresses@.map_values(views) =~= before.map_values(views).push(
                        dotted(octets@),
                    ));
                    assert(listing(interfaces@.take(i + 1)) =~= listing(
                        interfaces@.take(i as int),
                    ).push(dotted(octets@)));
                }
            },
            InterfaceAddress::V6 => {},
        }
        i += 1;
    }
    assert(interfaces@.take(interfaces.len() as int) =~= interfaces@);
    addresses
}

} // verus!
