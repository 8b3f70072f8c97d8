//! Which addresses appear to be globally reachable.

use libp2p::Multiaddr;
use vstd::prelude::*;

verus! {

/// A multi-address, as `libp2p` defines it.
#[verifier::external_type_specification]
#[verifier::external_body]
pub struct ExMultiaddr(libp2p::Multiaddr);

/// An IPv4 address.
#[derive(Debug, Clone, Copy)]
pub struct Ipv4Addr {
    pub octets: [u8; 4],
}

/// A component of a multi-address: an IPv4 address, or anything else.
#[derive(Debug, Clone, Copy)]
pub enum Component {
    Ip4(Ipv4Addr),
    Other,
}

/// The address with the octets `a`, `b`, `c` and `d`, as a number.
pub open spec fn address(a: int, b: int, c: int, d: int) -> int {
    a * 0x100_0000 + b * 0x1_0000 + c * 0x100 + d
}

impl Ipv4Addr {
    /// The address as a number.
    pub open spec fn number(self) -> int {
        address(
            self.octets@[0] as int,
            self.octets@[1] as int,
            self.octets@[2] as int,
            self.octets@[3] as int,
        )
    }

    /// The networks for private use, the addresses `10.0.0.0/8`, `172.16.0.0/12` and
    /// `192.168.0.0/16`.
    pub open spec fn private(self) -> bool {
        ||| address(10, 0, 0, 0) <= self.number() <= address(10, 255, 255, 255)
        ||| address(172, 16, 0, 0) <= self.number() <= address(172, 31, 255, 255)
        ||| address(192, 168, 0, 0) <= self.number() <= address(192, 168, 255, 255)
    }

    /// The addresses `127.0.0.0/8` of the machine itself.
    pub open spec fn loopback(self) -> bool {
        address(127, 0, 0, 0) <= self.number() <= address(127, 255, 255, 255)
    }

    /// The addresses `169.254.0.0/16` of a single link.
    pub open spec fn link_local(self) -> bool {
        address(169, 254, 0, 0) <= self.number() <= address(169, 254, 255, 255)
    }

    /// The addresses `192.0.2.0/24`, `198.51.100.0/24` and `203.0.113.0/24`, for use in
    /// documentation.
    pub open spec fn documentation(self) -> bool {
        ||| address(192, 0, 2, 0) <= self.number() <= address(192, 0, 2, 255)
        ||| address(198, 51, 100, 0) <= self.number() <= address(198, 51, 100, 255)
        ||| address(203, 0, 113, 0) <= self.number() <= address(203, 0, 113, 255)
    }

    /// The address of everyone on the local network.
    pub open spec fn broadcast(self) -> bool {
        self.number() == address(255, 255, 255, 255)
    }

    /// The addresses `192.0.0.0/24`, reserved for future protocols, but for the two of them that
    /// are documented as globally reachable.
    pub open spec fn reserved_for_protocols(self) -> bool {
        &&& address(192, 0, 0, 0) <= self.number() <= address(192, 0, 0, 255)
        &&& self.number() != address(192, 0, 0, 9)
        &&& self.number() != address(192, 0, 0, 10)
    }

    /// The addresses `100.64.0.0/10`, shared between a carrier and its customers.
    pub open spec fn shared(self) -> bool {
        address(100, 64, 0, 0) <= self.number() <= address(100, 127, 255, 255)
    }

    /// The addresses `198.18.0.0/15`, for the benchmarking of networks.
    pub open spec fn benchmarking(self) -> bool {
        address(198, 18, 0, 0) <= self.number() <= address(198, 19, 255, 255)
    }

    /// The addresses `240.0.0.0/4`, reserved for future use, but for that of everyone on the local
    /// network.
    pub open spec fn reserved(self) -> bool {
        address(240, 0, 0, 0) <= self.number() && !self.broadcast()
    }

    /// The addresses `0.0.0.0/8` of this network.
    pub open spec fn this_network(self) -> bool {
        self.number() <= address(0, 255, 255, 255)
    }

    /// Whether the address appears to be globally reachable.
    pub open spec fn global(self) -> bool {
        &&& !self.this_network()
        &&& !self.private()
        &&& !self.shared()
        &&& !self.loopback()
        &&& !self.link_local()
        &&& !self.reserved_for_protocols()
        &&& !self.documentation()
        &&& !self.benchmarking()
        &&& !self.reserved()
        &&& !self.broadcast()
    }

    /// Whether the address is for private use.
    pub fn is_private(self) -> (private: bool)
        ensures
            private == self.private(),
    {
        let o = self.octets;
        o[0] == 10 || (o[0] == 172 && 16 <= o[1] && o[1] <= 31) || (o[0] == 192 && o[1] == 168)
    }

    /// Whether the address is shared between a carrier and its customers.
    pub fn is_shared(self) -> (shared: bool)
        ensures
            shared == self.shared(),
    {
        self.octets[0] == 100 && 64 <= self.octets[1] && self.octets[1] <= 127
    }

    /// Whether the address is for the benchmarking of networks.
    pub fn is_benchmarking(self) -> (benchmarking: bool)
        ensures
            benchmarking == self.benchmarking(),
    {
        self.octets[0] == 198 && 18 <= self.octets[1] && self.octets[1] <= 19
    }

    /// Whether the address is reserved for future use.
    pub fn is_reserved(self) -> (reserved: bool)
        ensures
            reserved == self.reserved(),
    {
        self.octets[0] >= 240 && !self.is_broadcast()
    }

    /// Whether the address is one of the machine itself.
    pub fn is_loopback(self) -> (loopback: bool)
        ensures
            loopback == self.loopback(),
    {
        self.octets[0] == 127
    }

    /// Whether the address is one of a single link.
    pub fn is_link_local(self) -> (link_local: bool)
        ensures
            link_local == self.link_local(),
    {
        self.octets[0] == 169 && self.octets[1] == 254
    }

    /// Whether the address is for use in documentation.
    pub fn is_documentation(self) -> (documentation: bool)
        ensures
            documentation == self.documentation(),
    {
        let o = self.octets;
        (o[0] == 192 && o[1] == 0 && o[2] == 2) || (o[0] == 198 && o[1] == 51 && o[2] == 100) || (
        o[0] == 203 && o[1] == 0 && o[2] == 113)
    }

    /// Whether the address is that of everyone on the local network.
    pub fn is_broadcast(self) -> (broadcast: bool)
        ensures
            broadcast == self.broadcast(),
    {
        let o = self.octets;
        o[0] == 255 && o[1] == 255 && o[2] == 255 && o[3] == 255
    }
}

/// Returns `true` if the address appears to be globally reachable.
pub fn is_global(ip: Ipv4Addr) -> (global: bool)
    ensures
        global == ip.global(),
{
    let o = ip.octets;
    !(o[0] == 0 || ip.is_private() || ip.is_shared() || ip.is_loopback()
        || ip.is_link_local()
    // addresses reserved for future protocols (`192.0.0.0/24`)
    // .9 and .10 are documented as globally reachable so they're excluded
     || (o[0] == 192 && o[1] == 0 && o[2] == 0 && o[3] != 9 && o[3] != 10) || ip.is_documentation()
        || ip.is_benchmarking() || ip.is_reserved() || ip.is_broadcast())
}

/// Whether some component is an IPv4 address that appears to be globally reachable.
pub open spec fn some_global(components: Seq<Component>) -> bool {
    exists|i: int|
        0 <= i < components.len() && (#[trigger] components[i] matches Component::Ip4(ip)
            && ip.global())
}

/// The components of a multi-address, from the first to the last.
pub uninterp spec fn multiaddr_components(address: Multiaddr) -> Seq<Component>;

/// Calls `libp2p::Multiaddr::iter`, which hands out the components of a multi-address in order,
/// and tells the IPv4 addresses among them from the others. The components are
/// `multiaddr_components` of the multi-address.
#[verifier::external_body]
fn components(address: &Multiaddr) -> (components: Vec<Component>)
    ensures
        components@ == multiaddr_components(*address),
{
    address.iter().map(
        |protocol|
            match protocol {
                libp2p::multiaddr::Protocol::Ip4(ip) => Component::Ip4(
                    Ipv4Addr { octets: ip.octets() },
                ),
                _ => Component::Other,
            },
    ).collect()
}

/// Returns `true` if the IPv4 address in some component appears to be globally reachable.
pub fn any_global(components: &Vec<Component>) -> (global: bool)
    ensures
        global == some_global(components@),
{
    for i in 0..components.len()
        invariant
            forall|j: int|
                0 <= j < i ==> !(#[trigger] components@[j] matches Component::Ip4(ip)
                    && ip.global()),
    {
        if let Component::Ip4(ip) = components[i] {
            if is_global(ip) {
                assert(components@[i as int] matches Component::Ip4(ip) && ip.global());
                return true;
            }
        }
    }
    false
}

/// Returns `true` if the IP of the multi-address appears to be globally reachable.
pub fn is_multiaddr_global(address: &Multiaddr) -> (global: bool)
    ensures
        global == some_global(multiaddr_components(*address)),
{
    let components = components(address);
    any_global(&components)
}

/// No address that begins with 0 is global.
pub proof fn law_this_network_is_not_global(ip: Ipv4Addr)
    requires
        ip.octets@[0] == 0,
    ensures
        ip.this_network(),
        !ip.global(),
{
}

/// No address for private use is global: those that begin with 10, those that begin with 172 and a
/// number from 16 to 31, and those that begin with 192 and 168.
pub proof fn law_private_addresses_are_not_global(ip: Ipv4Addr)
    ensures
        ip.private() <==> {
            ||| ip.octets@[0] == 10
            ||| ip.octets@[0] == 172 && 16 <= ip.octets@[1] <= 31
            ||| ip.octets@[0] == 192 && ip.octets@[1] == 168
        },
        ip.octets@[0] == 10 ==> !ip.global(),
        ip.octets@[0] == 172 && 16 <= ip.octets@[1] <= 31 ==> !ip.global(),
        ip.octets@[0] == 192 && ip.octets@[1] == 168 ==> !ip.global(),
{
}

/// No shared address is global: those that begin with 100 and a number from 64 to 127.
pub proof fn law_shared_addresses_are_not_global(ip: Ipv4Addr)
    ensures
        ip.shared() <==> ip.octets@[0] == 100 && 64 <= ip.octets@[1] <= 127,
        ip.octets@[0] == 100 && 64 <= ip.octets@[1] <= 127 ==> !ip.global(),
{
}

/// No address of the machine itself is global: those that begin with 127.
pub proof fn law_loopback_addresses_are_not_global(ip: Ipv4Addr)
    ensures
        ip.loopback() <==> ip.octets@[0] == 127,
        ip.octets@[0] == 127 ==> !ip.global(),
{
}

/// No address of a single link is global: those that begin with 169 and 254.
pub proof fn law_link_local_addresses_are_not_global(ip: Ipv4Addr)
    ensures
        ip.link_local() <==> ip.octets@[0] == 169 && ip.octets@[1] == 254,
        ip.octets@[0] == 169 && ip.octets@[1] == 254 ==> !ip.global(),
{
}

/// No address that begins with 192, 0 and 0 is global, but for the two that end in 9 and 10.
pub proof fn law_two_addresses_for_protocols_are_global(ip: Ipv4Addr)
    requires
        ip.octets@[0] == 192,
        ip.octets@[1] == 0,
        ip.octets@[2] == 0,
    ensures
        ip.global() <==> ip.octets@[3] == 9 || ip.octets@[3] == 10,
{
}

/// No address for use in documentation is global: those that begin with 192, 0 and 2, with 198, 51
/// and 100, and with 203, 0 and 113.
pub proof fn law_documentation_addresses_are_not_global(ip: Ipv4Addr)
    ensures
        ip.documentation() <==> {
            ||| ip.octets@[0] == 192 && ip.octets@[1] == 0 && ip.octets@[2] == 2
            ||| ip.octets@[0] == 198 && ip.octets@[1] == 51 && ip.octets@[2] == 100
            ||| ip.octets@[0] == 203 && ip.octets@[1] == 0 && ip.octets@[2] == 113
        },
        ip.octets@[0] == 192 && ip.octets@[1] == 0 && ip.octets@[2] == 2 ==> !ip.global(),
        ip.octets@[0] == 198 && ip.octets@[1] == 51 && ip.octets@[2] == 100 ==> !ip.global(),
        ip.octets@[0] == 203 && ip.octets@[1] == 0 && ip.octets@[2] == 113 ==> !ip.global(),
{
}

/// No address for the benchmarking of networks is global: those that begin with 198 and 18 or 19.
pub proof fn law_benchmarking_addresses_are_not_global(ip: Ipv4Addr)
    ensures
        ip.benchmarking() <==> ip.octets@[0] == 198 && (ip.octets@[1] == 18 || ip.octets@[1] == 19),
        ip.octets@[0] == 198 && (ip.octets@[1] == 18 || ip.octets@[1] == 19) ==> !ip.global(),
{
}

/// No address that begins with 240 or more is global: it is reserved, or that of everyone on the
/// local network.
pub proof fn law_reserved_addresses_are_not_global(ip: Ipv4Addr)
    ensures
        ip.broadcast() <==> {
            &&& ip.octets@[0] == 255
            &&& ip.octets@[1] == 255
            &&& ip.octets@[2] == 255
            &&& ip.octets@[3] == 255
        },
        ip.reserved() <==> ip.octets@[0] >= 240 && !(ip.octets@[0] == 255 && ip.octets@[1] == 255
            && ip.octets@[2] == 255 && ip.octets@[3] == 255),
        ip.octets@[0] >= 240 ==> !ip.global(),
{
}

/// Every other address is global.
pub proof fn law_other_addresses_are_global(ip: Ipv4Addr)
    requires
        0 < ip.octets@[0] < 240,
        ip.octets@[0] != 10,
        ip.octets@[0] == 100 ==> ip.octets@[1] < 64 || ip.octets@[1] > 127,
        ip.octets@[0] != 127,
        ip.octets@[0] == 169 ==> ip.octets@[1] != 254,
        ip.octets@[0] == 172 ==> ip.octets@[1] < 16 || ip.octets@[1] > 31,
        ip.octets@[0] == 192 ==> ip.octets@[1] != 168,
        ip.octets@[0] == 192 && ip.octets@[1] == 0 ==> ip.octets@[2] != 0 && ip.octets@[2] != 2,
        ip.octets@[0] == 198 ==> ip.octets@[1] != 18 && ip.octets@[1] != 19,
        ip.octets@[0] == 198 && ip.octets@[1] == 51 ==> ip.octets@[2] != 100,
        ip.octets@[0] == 203 && ip.octets@[1] == 0 ==> ip.octets@[2] != 113,
    ensures
        ip.global(),
{
}

/// Of no components, none is global; one alone counts if it is an IPv4 address that is; and some
/// component of two rows put together is global exactly if some component of either is.
pub proof fn law_components_count_one_by_one(
    component: Component,
    front: Seq<Component>,
    back: Seq<Component>,
)
    ensures
        !some_global(Seq::<Component>::empty()),
        component is Other ==> !some_global(seq![component]),
        component matches Component::Ip4(ip) ==> (some_global(seq![component]) <==> ip.global()),
        some_global(front + back) <==> some_global(front) || some_global(back),
{
    if some_global(seq![component]) {
        let one = seq![component];
        let i = choose|i: int|
            0 <= i < one.len() && (#[trigger] one[i] matches Component::Ip4(ip) && ip.global());
        assert(one[i] == component);
    }
    if component matches Component::Ip4(ip) && ip.global() {
        assert(seq![component][0] matches Component::Ip4(ip) && ip.global());
    }
    let all = front + back;
    if some_global(all) {
        let i = choose|i: int|
            0 <= i < all.len() && (#[trigger] all[i] matches Component::Ip4(ip) && ip.global());
        if i < front.len() {
            assert(front[i] == all[i]);
        } else {
            assert(back[i - front.len()] == all[i]);
        }
    }
    if some_global(front) {
        let i = choose|i: int|
            0 <= i < front.len() && (#[trigger] front[i] matches Component::Ip4(ip) && ip.global());
        assert(all[i] == front[i]);
    }
    if some_global(back) {
        let i = choose|i: int|
            0 <= i < back.len() && (#[trigger] back[i] matches Component::Ip4(ip) && ip.global());
        assert(all[front.len() + i] == back[i]);
    }
}

} // verus!
