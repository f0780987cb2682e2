//! The choice of the LAN address that devices should use to reach this
//! machine: an IPv4 address of a real network adapter, not of a virtual
//! one (VirtualBox, VMware, Hyper-V, VPNs and the like).

use vstd::prelude::*;
use crate::text::{
    chars_of, contains, contains_seq, decimal, decimal_reads_back, digits_value, is_digit,
    push_decimal,
};
use crate::unicode::{lowercase, unicode_lowercase};

verus! {

/// An IPv4 address by its four octets.
#[derive(Clone, Copy)]
pub struct Ipv4Address {
    pub octets: [u8; 4],
}

/// The address of a network interface. Of an IPv6 address nothing is read.
#[derive(Clone, Copy)]
pub enum IpAddress {
    V4(Ipv4Address),
    V6,
}

/// A network interface: its adapter name and one of its addresses.
pub struct NetInterface {
    pub name: String,
    pub addr: IpAddress,
}

/// `127.0.0.0/8`, as `Ipv4Addr::is_loopback` tests.
pub open spec fn is_loopback(a: Ipv4Address) -> bool {
    a.octets[0] == 127
}

/// `169.254.0.0/16`, as `Ipv4Addr::is_link_local` tests.
pub open spec fn is_link_local(a: Ipv4Address) -> bool {
    a.octets[0] == 169 && a.octets[1] == 254
}

/// An IPv4 address that other devices on the LAN can reach.
pub open spec fn usable_v4(addr: IpAddress) -> bool {
    match addr {
        IpAddress::V4(a) => !is_loopback(a) && !is_link_local(a),
        IpAddress::V6 => false,
    }
}

/// The words that mark an adapter name as virtual (compared in lower case).
pub open spec fn virtual_keywords() -> Seq<Seq<char>> {
    seq![
        "virtual"@,
        "vmware"@,
        "vmnet"@,
        "vbox"@,
        "virtualbox"@,
        "pseudo"@,
        "hamachi"@,
        "vpn"@,
        "vethernet"@,
        "loopback"@,
        "docker"@,
        "wsl"@,
        "hyper-v"@,
        "bluetooth"@,
        "teredo"@,
        "isatap"@,
        "6to4"@,
    ]
}

/// Whether the lower-cased adapter name contains one of the virtual words.
pub open spec fn is_virtual_name(name: Seq<char>) -> bool {
    exists|k: int|
        0 <= k < virtual_keywords().len() && contains_seq(
            unicode_lowercase(name),
            #[trigger] virtual_keywords()[k],
        )
}

/// A usable IPv4 address on a real adapter.
pub open spec fn is_preferred(i: NetInterface) -> bool {
    usable_v4(i.addr) && !is_virtual_name(i.name@)
}

/// The dotted-decimal text of an IPv4 address.
pub open spec fn ipv4_text(a: Ipv4Address) -> Seq<char> {
    decimal(a.octets[0] as nat) + seq!['.'] + decimal(a.octets[1] as nat) + seq!['.'] + decimal(
        a.octets[2] as nat,
    ) + seq!['.'] + decimal(a.octets[3] as nat)
}

/// Four fields joined by dots.
pub open spec fn dotted(d0: Seq<char>, d1: Seq<char>, d2: Seq<char>, d3: Seq<char>) -> Seq<char> {
    d0 + seq!['.'] + d1 + seq!['.'] + d2 + seq!['.'] + d3
}

/// A non-empty field of ASCII digits that reads as `value`.
pub open spec fn digit_field(d: Seq<char>, value: u8) -> bool {
    d.len() > 0 && (forall|i: int| 0 <= i < d.len() ==> is_digit(#[trigger] d[i])) && digits_value(d)
        == value as nat
}

/// The text of an address is four fields of digits separated by dots, and
/// the fields read back as the four octets, in order.
pub proof fn ipv4_text_reads_back(a: Ipv4Address)
    ensures
        exists|d0: Seq<char>, d1: Seq<char>, d2: Seq<char>, d3: Seq<char>|
            #[trigger] dotted(d0, d1, d2, d3) == ipv4_text(a) && digit_field(d0, a.octets[0])
                && digit_field(d1, a.octets[1]) && digit_field(d2, a.octets[2]) && digit_field(
                d3,
                a.octets[3],
            ),
{
    decimal_reads_back(a.octets[0] as nat);
    decimal_reads_back(a.octets[1] as nat);
    decimal_reads_back(a.octets[2] as nat);
    decimal_reads_back(a.octets[3] as nat);
    let d0 = decimal(a.octets[0] as nat);
    let d1 = decimal(a.octets[1] as nat);
    let d2 = decimal(a.octets[2] as nat);
    let d3 = decimal(a.octets[3] as nat);
    assert(dotted(d0, d1, d2, d3) == ipv4_text(a));
    assert(digit_field(d0, a.octets[0]));
    assert(digit_field(d1, a.octets[1]));
    assert(digit_field(d2, a.octets[2]));
    assert(digit_field(d3, a.octets[3]));
}

/// The address of the first interface with a preferred address.
pub open spec fn first_preferred(ifs: Seq<NetInterface>) -> Option<Ipv4Address>
    decreases ifs.len(),
{
    if ifs.len() == 0 {
        None
    } else if is_preferred(ifs[0]) {
        match ifs[0].addr {
            IpAddress::V4(a) => Some(a),
            IpAddress::V6 => None,
        }
    } else {
        first_preferred(ifs.drop_first())
    }
}

/// The address of the first interface with a usable IPv4 address.
pub open spec fn first_usable(ifs: Seq<NetInterface>) -> Option<Ipv4Address>
    decreases ifs.len(),
{
    if ifs.len() == 0 {
        None
    } else if usable_v4(ifs[0].addr) {
        match ifs[0].addr {
            IpAddress::V4(a) => Some(a),
            IpAddress::V6 => None,
        }
    } else {
        first_usable(ifs.drop_first())
    }
}

/// The address used when no interface offers a usable one.
pub open spec fn fallback_ip() -> Seq<char> {
    seq!['1', '2', '7', '.', '0', '.', '0', '.', '1']
}

/// The LAN address: of a real adapter if there is one, else of any adapter,
/// else the loopback address.
pub open spec fn lan_ip_text(ifs: Seq<NetInterface>) -> Seq<char> {
    match first_preferred(ifs) {
        Some(a) => ipv4_text(a),
        None => match first_usable(ifs) {
            Some(a) => ipv4_text(a),
            None => fallback_ip(),
        },
    }
}

/// The `i`-th word that marks a virtual adapter.
fn virtual_keyword(i: usize) -> (word: &'static str)
    requires
        i < 17,
    ensures
        word@ == virtual_keywords()[i as int],
{
    match i {
        0 => "virtual",
        1 => "vmware",
        2 => "vmnet",
        3 => "vbox",
        4 => "virtualbox",
        5 => "pseudo",
        6 => "hamachi",
        7 => "vpn",
        8 => "vethernet",
        9 => "loopback",
        10 => "docker",
        11 => "wsl",
        12 => "hyper-v",
        13 => "bluetooth",
        14 => "teredo",
        15 => "isatap",
        _ => "6to4",
    }
}

/// Whether an adapter name marks a virtual adapter.
pub fn is_virtual_adapter(name: &str) -> (b: bool)
    ensures
        b == is_virtual_name(name@),
{
    let lower = lowercase(name);
    let lower_chars = chars_of(lower.as_str());
    let mut k: usize = 0;
    while k < 17
        invariant
            k <= 17,
            lower_chars@ == unicode_lowercase(name@),
            forall|j: int|
                0 <= j < k ==> !contains_seq(lower_chars@, #[trigger] virtual_keywords()[j]),
        decreases 17 - k,
    {
        let word = chars_of(virtual_keyword(k));
        if contains(&lower_chars, &word) {
            return true;
        }
        k = k + 1;
    }
    false
}

/// Whether an address is a usable IPv4 address.
pub fn is_usable_v4(addr: &IpAddress) -> (b: bool)
    ensures
        b == usable_v4(*addr),
{
    match addr {
        IpAddress::V4(a) => !(a.octets[0] == 127) && !(a.octets[0] == 169 && a.octets[1] == 254),
        IpAddress::V6 => false,
    }
}

/// The dotted-decimal text of an IPv4 address, as `Ipv4Addr` displays it.
pub fn ipv4_to_string(a: &Ipv4Address) -> (s: String)
    ensures
        s@ == ipv4_text(*a),
{
    let mut s = String::new();
    push_decimal(&mut s, a.octets[0] as u64);
    s.push('.');
    push_decimal(&mut s, a.octets[1] as u64);
    s.push('.');
    push_decimal(&mut s, a.octets[2] as u64);
    s.push('.');
    push_decimal(&mut s, a.octets[3] as u64);
    assert(s@ =~= ipv4_text(*a));
    s
}

proof fn lemma_first_preferred_skip(ifs: Seq<NetInterface>, i: int)
    requires
        0 <= i <= ifs.len(),
        forall|j: int| 0 <= j < i ==> !is_preferred(#[trigger] ifs[j]),
    ensures
        first_preferred(ifs) == first_preferred(ifs.skip(i)),
    decreases i,
{
    if i > 0 {
        assert(!is_preferred(ifs[0]));
        assert forall|j: int| 0 <= j < i - 1 implies !is_preferred(#[trigger] ifs.drop_first()[j]) by {
            assert(ifs.drop_first()[j] == ifs[j + 1]);
        }
        lemma_first_preferred_skip(ifs.drop_first(), i - 1);
        assert(ifs.drop_first().skip(i - 1) == ifs.skip(i));
    } else {
        assert(ifs.skip(0) == ifs);
    }
}

proof fn lemma_first_usable_skip(ifs: Seq<NetInterface>, i: int)
    requires
        0 <= i <= ifs.len(),
        forall|j: int| 0 <= j < i ==> !usable_v4(#[trigger] ifs[j].addr),
    ensures
        first_usable(ifs) == first_usable(ifs.skip(i)),
    decreases i,
{
    if i > 0 {
        assert(!usable_v4(ifs[0].addr));
        assert forall|j: int| 0 <= j < i - 1 implies !usable_v4(#[trigger] ifs.drop_first()[j].addr) by {
            assert(ifs.drop_first()[j] == ifs[j + 1]);
        }
        lemma_first_usable_skip(ifs.drop_first(), i - 1);
        assert(ifs.drop_first().skip(i - 1) == ifs.skip(i));
    } else {
        assert(ifs.skip(0) == ifs);
    }
}

proof fn lemma_first_preferred_found(ifs: Seq<NetInterface>)
    ensures
        first_preferred(ifs) is None <==> forall|j: int|
            0 <= j < ifs.len() ==> !is_preferred(#[trigger] ifs[j]),
        first_preferred(ifs) matches Some(a) ==> exists|i: int|
            0 <= i < ifs.len() && is_preferred(#[trigger] ifs[i]) && ifs[i].addr == IpAddress::V4(a)
                && forall|j: int| 0 <= j < i ==> !is_preferred(#[trigger] ifs[j]),
    decreases ifs.len(),
{
    if ifs.len() > 0 {
        lemma_first_preferred_found(ifs.drop_first());
        assert forall|j: int| 0 < j < ifs.len() implies ifs.drop_first()[j - 1] == #[trigger] ifs[j] by {}
        if !is_preferred(ifs[0]) {
            if let Some(a) = first_preferred(ifs) {
                let i = choose|i: int|
                    0 <= i < ifs.drop_first().len() && is_preferred(#[trigger] ifs.drop_first()[i])
                        && ifs.drop_first()[i].addr == IpAddress::V4(a) && forall|j: int|
                        0 <= j < i ==> !is_preferred(#[trigger] ifs.drop_first()[j]);
                assert(ifs[i + 1] == ifs.drop_first()[i]);
                assert forall|j: int| 0 <= j < i + 1 implies !is_preferred(#[trigger] ifs[j]) by {
                    if j > 0 {
                        assert(ifs[j] == ifs.drop_first()[j - 1]);
                    }
                }
            }
            if forall|j: int| 0 <= j < ifs.drop_first().len() ==> !is_preferred(
                #[trigger] ifs.drop_first()[j],
            ) {
                assert forall|j: int| 0 <= j < ifs.len() implies !is_preferred(#[trigger] ifs[j]) by {
                    if j > 0 {
                        assert(ifs[j] == ifs.drop_first()[j - 1]);
                    }
                }
            }
        }
    }
}

proof fn lemma_first_usable_found(ifs: Seq<NetInterface>)
    ensures
        first_usable(ifs) matches Some(a) ==> exists|i: int|
            0 <= i < ifs.len() && usable_v4(#[trigger] ifs[i].addr) && ifs[i].addr == IpAddress::V4(
                a,
            ),
    decreases ifs.len(),
{
    if ifs.len() > 0 {
        lemma_first_usable_found(ifs.drop_first());
        if !usable_v4(ifs[0].addr) {
            if let Some(a) = first_usable(ifs) {
                let i = choose|i: int|
                    0 <= i < ifs.drop_first().len() && usable_v4(#[trigger] ifs.drop_first()[i].addr)
                        && ifs.drop_first()[i].addr == IpAddress::V4(a);
                assert(ifs[i + 1] == ifs.drop_first()[i]);
            }
        }
    }
}

/// The chosen address is the loopback fallback or a usable IPv4 address of
/// one of the interfaces; and when some real adapter has a usable address,
/// it is that of the first such adapter.
pub proof fn lan_ip_prefers_real_adapters(ifs: Seq<NetInterface>)
    ensures
        lan_ip_text(ifs) == fallback_ip() || exists|i: int|
            0 <= i < ifs.len() && usable_v4(#[trigger] ifs[i].addr) && (ifs[i].addr matches IpAddress::V4(a)
                && lan_ip_text(ifs) == ipv4_text(a)),
        (exists|i: int| 0 <= i < ifs.len() && is_preferred(#[trigger] ifs[i])) ==> exists|i: int|
            0 <= i < ifs.len() && is_preferred(#[trigger] ifs[i]) && (ifs[i].addr matches IpAddress::V4(a)
                && lan_ip_text(ifs) == ipv4_text(a)) && forall|j: int|
                0 <= j < i ==> !is_preferred(#[trigger] ifs[j]),
{
    lemma_first_preferred_found(ifs);
    lemma_first_usable_found(ifs);
    match first_preferred(ifs) {
        Some(a) => {
            let i = choose|i: int|
                0 <= i < ifs.len() && is_preferred(#[trigger] ifs[i]) && ifs[i].addr
                    == IpAddress::V4(a) && forall|j: int|
                    0 <= j < i ==> !is_preferred(#[trigger] ifs[j]);
            assert(usable_v4(ifs[i].addr));
        },
        None => {
            if let Some(a) = first_usable(ifs) {
                let i = choose|i: int|
                    0 <= i < ifs.len() && usable_v4(#[trigger] ifs[i].addr) && ifs[i].addr
                        == IpAddress::V4(a);
                assert(lan_ip_text(ifs) == ipv4_text(a));
            }
        },
    }
}

/// The words that mark an adapter as virtual, written out: an adapter is
/// virtual exactly when its lower-cased name contains one of `virtual`,
/// `vmware`, `vmnet`, `vbox`, `virtualbox`, `pseudo`, `hamachi`, `vpn`,
/// `vethernet`, `loopback`, `docker`, `wsl`, `hyper-v`, `bluetooth`,
/// `teredo`, `isatap` or `6to4`.
pub proof fn virtual_adapter_words(name: Seq<char>)
    ensures
        is_virtual_name(name) <==> {
            let lower = unicode_lowercase(name);
        ||| contains_seq(lower, "virtual"@)
        ||| contains_seq(lower, "vmware"@)
        ||| contains_seq(lower, "vmnet"@)
        ||| contains_seq(lower, "vbox"@)
        ||| contains_seq(lower, "virtualbox"@)
        ||| contains_seq(lower, "pseudo"@)
        ||| contains_seq(lower, "hamachi"@)
        ||| contains_seq(lower, "vpn"@)
        ||| contains_seq(lower, "vethernet"@)
        ||| contains_seq(lower, "loopback"@)
        ||| contains_seq(lower, "docker"@)
        ||| contains_seq(lower, "wsl"@)
        ||| contains_seq(lower, "hyper-v"@)
        ||| contains_seq(lower, "bluetooth"@)
        ||| contains_seq(lower, "teredo"@)
        ||| contains_seq(lower, "isatap"@)
        ||| contains_seq(lower, "6to4"@)
        },
{
    assert(virtual_keywords()[0] == "virtual"@);
    assert(virtual_keywords()[1] == "vmware"@);
    assert(virtual_keywords()[2] == "vmnet"@);
    assert(virtual_keywords()[3] == "vbox"@);
    assert(virtual_keywords()[4] == "virtualbox"@);
    assert(virtual_keywords()[5] == "pseudo"@);
    assert(virtual_keywords()[6] == "hamachi"@);
    assert(virtual_keywords()[7] == "vpn"@);
    assert(virtual_keywords()[8] == "vethernet"@);
    assert(virtual_keywords()[9] == "loopback"@);
    assert(virtual_keywords()[10] == "docker"@);
    assert(virtual_keywords()[11] == "wsl"@);
    assert(virtual_keywords()[12] == "hyper-v"@);
    assert(virtual_keywords()[13] == "bluetooth"@);
    assert(virtual_keywords()[14] == "teredo"@);
    assert(virtual_keywords()[15] == "isatap"@);
    assert(virtual_keywords()[16] == "6to4"@);
    let lower = unicode_lowercase(name);
    assert(virtual_keywords().len() == 17);
    if is_virtual_name(name) {
        let k = choose|k: int|
            0 <= k < virtual_keywords().len() && contains_seq(lower, #[trigger] virtual_keywords()[k]);
        assert(0 <= k < 17);
    }
}

/// Only loopback (`127.0.0.0/8`) and link-local (`169.254.0.0/16`) IPv4
/// addresses are unusable; every other IPv4 address, the private ranges
/// `10/8`, `172.16/12` and `192.168/16` among them, can be published, and
/// an IPv6 address never is.
pub proof fn usable_addresses(a: Ipv4Address)
    ensures
        usable_v4(IpAddress::V4(a)) <==> !(a.octets[0] == 127) && !(a.octets[0] == 169
            && a.octets[1] == 254),
        !usable_v4(IpAddress::V6),
{
}

/// The LAN address that devices should use, from the machine's interfaces
/// in the order the system lists them.
pub fn get_safe_lan_ip(interfaces: &[NetInterface]) -> (ip: String)
    ensures
        ip@ == lan_ip_text(interfaces@),
{
    let n: usize = interfaces.len();
    let mut i: usize = 0;
    while i < n
        invariant
            n == interfaces@.len(),
            i <= n,
            forall|j: int| 0 <= j < i ==> !is_preferred(#[trigger] interfaces@[j]),
        decreases n - i,
    {
        let ifc = &interfaces[i];
        if is_usable_v4(&ifc.addr) && !is_virtual_adapter(ifc.name.as_str()) {
            if let IpAddress::V4(a) = &ifc.addr {
                proof {
                    lemma_first_preferred_skip(interfaces@, i as int);
                    assert(interfaces@.skip(i as int)[0] == interfaces@[i as int]);
                }
                return ipv4_to_string(a);
            }
        }
        i = i + 1;
    }
    proof {
        lemma_first_preferred_skip(interfaces@, n as int);
        assert(interfaces@.skip(n as int).len() == 0);
    }
    let mut i: usize = 0;
    while i < n
        invariant
            n == interfaces@.len(),
            i <= n,
            first_preferred(interfaces@) is None,
            forall|j: int| 0 <= j < i ==> !usable_v4(#[trigger] interfaces@[j].addr),
        decreases n - i,
    {
        let ifc = &interfaces[i];
        if is_usable_v4(&ifc.addr) {
            if let IpAddress::V4(a) = &ifc.addr {
                proof {
                    lemma_first_usable_skip(interfaces@, i as int);
                    assert(interfaces@.skip(i as int)[0] == interfaces@[i as int]);
                }
                return ipv4_to_string(a);
            }
        }
        i = i + 1;
    }
    proof {
        lemma_first_usable_skip(interfaces@, n as int);
        assert(interfaces@.skip(n as int).len() == 0);
    }
    let fallback: [char; 9] = ['1', '2', '7', '.', '0', '.', '0', '.', '1'];
    assert(fallback@ =~= fallback_ip());
    crate::text::string_of(&fallback)
}

} // verus!
