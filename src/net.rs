use vstd::prelude::*;

verus! {

/// An IP address, held as its octets in network order.
#[derive(Clone, Copy, Debug)]
pub enum IpAddress {
    V4([u8; 4]),
    V6([u8; 16]),
}

/// An IP address together with a port.
#[derive(Clone, Copy, Debug)]
pub struct SocketAddress {
    pub ip: IpAddress,
    pub port: u16,
}

impl IpAddress {
    /// The address's octets, most significant first.
    pub open spec fn octets(self) -> Seq<u8> {
        match self {
            IpAddress::V4(a) => a@,
            IpAddress::V6(a) => a@,
        }
    }

    /// The number of bits in an address of this family.
    pub open spec fn bit_width(self) -> nat {
        match self {
            IpAddress::V4(_) => 32,
            IpAddress::V6(_) => 128,
        }
    }

    pub open spec fn same_family(self, other: IpAddress) -> bool {
        match (self, other) {
            (IpAddress::V4(_), IpAddress::V4(_)) => true,
            (IpAddress::V6(_), IpAddress::V6(_)) => true,
            _ => false,
        }
    }

    /// The IPv4 address 0.0.0.0, which a failed request reports as bound.
    pub fn unspecified_v4() -> (r: IpAddress)
        ensures
            r is V4,
            r.octets() == seq![0u8, 0u8, 0u8, 0u8],
    {
        let r = IpAddress::V4([0u8; 4]);
        assert(r.octets() =~= seq![0u8, 0u8, 0u8, 0u8]);
        r
    }
}

/// The first `bits` bits of `a` and `b` agree: every whole byte of the
/// prefix is equal, and so are the top `bits % 8` bits of the next byte.
pub open spec fn prefix_bits_equal(a: Seq<u8>, b: Seq<u8>, bits: nat) -> bool {
    let whole = (bits / 8) as int;
    let rest = bits % 8;
    &&& forall|i: int| 0 <= i < whole ==> a[i] == b[i]
    &&& rest != 0 ==> (a[whole] >> ((8 - rest) as u8)) == (b[whole] >> ((8 - rest) as u8))
}

/// An IP network in CIDR form: an address and a prefix length no longer
/// than the address.
#[derive(Clone, Copy, Debug)]
pub struct IpNetwork {
    addr: IpAddress,
    prefix_len: u8,
}

impl View for IpNetwork {
    type V = (IpAddress, nat);

    closed spec fn view(&self) -> (IpAddress, nat) {
        (self.addr, self.prefix_len as nat)
    }
}

/// `net` holds `ip`: the families agree and so do the first prefix-length
/// bits. The host bits of the network's own address play no part.
pub open spec fn network_contains(net: (IpAddress, nat), ip: IpAddress) -> bool {
    net.0.same_family(ip) && prefix_bits_equal(net.0.octets(), ip.octets(), net.1)
}

impl IpNetwork {
    #[verifier::type_invariant]
    spec fn prefix_fits(self) -> bool {
        self.prefix_len as nat <= self.addr.bit_width()
    }

    /// The network `addr/prefix_len`; `None` where the prefix is longer than
    /// the address.
    pub fn new(addr: IpAddress, prefix_len: u8) -> (r: Option<IpNetwork>)
        ensures
            r is Some <==> prefix_len as nat <= addr.bit_width(),
            r matches Some(n) ==> n@ == (addr, prefix_len as nat),
    {
        let width: u8 = match addr {
            IpAddress::V4(_) => 32,
            IpAddress::V6(_) => 128,
        };
        if prefix_len <= width {
            Some(IpNetwork { addr, prefix_len })
        } else {
            None
        }
    }

    pub fn addr(&self) -> (r: IpAddress)
        ensures
            r == self@.0,
    {
        self.addr
    }

    pub fn prefix_len(&self) -> (r: u8)
        ensures
            r as nat == self@.1,
            self@.1 <= self@.0.bit_width(),
    {
        proof {
            use_type_invariant(self);
        }
        self.prefix_len
    }

    /// Whether `ip` lies in this network.
    pub fn contains(&self, ip: &IpAddress) -> (r: bool)
        ensures
            r == network_contains(self@, *ip),
    {
        proof {
            use_type_invariant(self);
        }
        match (&self.addr, ip) {
            (IpAddress::V4(a), IpAddress::V4(b)) => prefix_equal(a, b, self.prefix_len),
            (IpAddress::V6(a), IpAddress::V6(b)) => prefix_equal(a, b, self.prefix_len),
            _ => false,
        }
    }
}

fn prefix_equal(a: &[u8], b: &[u8], bits: u8) -> (r: bool)
    requires
        a@.len() == b@.len(),
        bits as nat <= 8 * a@.len(),
    ensures
        r == prefix_bits_equal(a@, b@, bits as nat),
{
    let whole: usize = (bits / 8) as usize;
    let rest: u8 = bits % 8;
    let mut i: usize = 0;
    while i < whole
        invariant
            i <= whole,
            whole == bits / 8,
            whole <= a@.len(),
            a@.len() == b@.len(),
            forall|j: int| 0 <= j < i ==> a@[j] == b@[j],
        decreases whole - i,
    {
        if a[i] != b[i] {
            return false;
        }
        i = i + 1;
    }
    if rest == 0 {
        true
    } else {
        (a[whole] >> (8 - rest)) == (b[whole] >> (8 - rest))
    }
}

} // verus!
