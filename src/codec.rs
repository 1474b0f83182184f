use vstd::prelude::*;
use vstd::slice::slice_subrange;

use crate::config::Config;
use crate::net::{IpAddress, SocketAddress};

verus! {

/// The SOCKS protocol version.
pub const SOCKS_VERSION: u8 = 0x05;

/// The username/password sub-negotiation version.
pub const AUTH_VERSION: u8 = 0x01;

/// Method: no authentication.
pub const NO_AUTH_METHOD: u8 = 0x00;

/// Method: username/password.
pub const AUTH_METHOD: u8 = 0x02;

/// Method reply: no acceptable method.
pub const NO_METHOD: u8 = 0xff;

/// Sub-negotiation status of a successful check.
pub const AUTH_SUCCEEDED: u8 = 0x00;

/// Sub-negotiation status of a failed check.
pub const AUTH_FAILED: u8 = 0x01;

/// The CONNECT command.
pub const CONNECT_COMMAND: u8 = 0x01;

/// Address type: IPv4.
pub const IPV4_TYPE: u8 = 0x01;

/// Address type: domain name.
pub const DOMAIN_TYPE: u8 = 0x03;

/// Address type: IPv6.
pub const IPV6_TYPE: u8 = 0x04;

/// The wire form of an address and port: its octets and the port.
pub type Endpoint = (Seq<u8>, u16);

impl View for SocketAddress {
    type V = Endpoint;

    open spec fn view(&self) -> Endpoint {
        (self.ip.octets(), self.port)
    }
}

/// The port whose big-endian bytes are `hi` and `lo`.
pub open spec fn be_u16(hi: u8, lo: u8) -> u16 {
    (hi as int * 256 + lo as int) as u16
}

/// The two big-endian bytes of `port`.
pub open spec fn port_bytes(port: u16) -> Seq<u8> {
    seq![(port / 256) as u8, (port % 256) as u8]
}

/// Method `m` may be selected under `config`: NO AUTH where authentication
/// is not required, USERNAME/PASSWORD where it is required or users exist.
pub open spec fn method_acceptable(config: &Config, m: u8) -> bool {
    ||| m == NO_AUTH_METHOD && !config.require_auth
    ||| m == AUTH_METHOD && (config.require_auth || config.users@.len() > 0)
}

/// The first acceptable method in the client's order, or `NO_METHOD`.
pub open spec fn first_acceptable(config: &Config, offered: Seq<u8>) -> u8
    decreases offered.len(),
{
    if offered.len() == 0 {
        NO_METHOD
    } else if method_acceptable(config, offered[0]) {
        offered[0]
    } else {
        first_acceptable(config, offered.drop_first())
    }
}

/// The address-type byte for an address of `octets.len()` bytes.
pub open spec fn atyp_for(octets: Seq<u8>) -> u8 {
    if octets.len() == 16 {
        IPV6_TYPE
    } else {
        IPV4_TYPE
    }
}

/// A request reply: version, reply code, reserved zero, address type, the
/// bound address and its big-endian port.
pub open spec fn reply_frame(code: u8, bound: Endpoint) -> Seq<u8> {
    seq![SOCKS_VERSION, code, 0u8, atyp_for(bound.0)] + bound.0 + port_bytes(bound.1)
}

/// Reads a request reply: ten bytes for an IPv4 bound address, twenty-two
/// for an IPv6 one.
pub open spec fn parse_reply(b: Seq<u8>) -> Option<(u8, Endpoint)> {
    if b.len() == 10 && b[0] == SOCKS_VERSION && b[2] == 0 && b[3] == IPV4_TYPE {
        Some((b[1], (b.subrange(4, 8), be_u16(b[8], b[9]))))
    } else if b.len() == 22 && b[0] == SOCKS_VERSION && b[2] == 0 && b[3] == IPV6_TYPE {
        Some((b[1], (b.subrange(4, 20), be_u16(b[20], b[21]))))
    } else {
        None
    }
}

/// A domain target as a request carries it: the length byte, the name, the
/// big-endian port.
pub open spec fn domain_target_bytes(domain: Seq<u8>, port: u16) -> Seq<u8> {
    seq![domain.len() as u8] + domain + port_bytes(port)
}

/// The name in a domain target's payload, the bytes after the length byte.
pub open spec fn payload_domain(payload: Seq<u8>) -> Seq<u8> {
    payload.subrange(0, payload.len() - 2)
}

/// The port in a domain target's payload.
pub open spec fn payload_port(payload: Seq<u8>) -> u16 {
    be_u16(payload[payload.len() - 2], payload[payload.len() - 1])
}

proof fn lemma_port_round_trip(port: u16)
    ensures
        be_u16(port_bytes(port)[0], port_bytes(port)[1]) == port,
{
}

/// Picks the method to answer a greeting with: the first offered method
/// that `config` accepts, scanning in the client's order.
pub fn select_method(config: &Config, offered: &[u8]) -> (r: u8)
    ensures
        r == first_acceptable(config, offered@),
{
    let has_users = config.has_users();
    let mut i: usize = 0;
    assert(offered@.skip(0) =~= offered@);
    while i < offered.len()
        invariant
            i <= offered@.len(),
            has_users == (config.users@.len() > 0),
            first_acceptable(config, offered@) == first_acceptable(config, offered@.skip(i as int)),
        decreases offered@.len() - i,
    {
        let m = offered[i];
        assert(offered@.skip(i as int).drop_first() =~= offered@.skip(i + 1));
        if (m == NO_AUTH_METHOD && !config.require_auth) || (m == AUTH_METHOD && (
        config.require_auth || has_users)) {
            return m;
        }
        i = i + 1;
    }
    NO_METHOD
}

/// The big-endian port in `hi`, `lo`.
pub fn read_port(hi: u8, lo: u8) -> (r: u16)
    ensures
        r == be_u16(hi, lo),
        r as int == hi as int * 256 + lo as int,
{
    (hi as u16) * 256 + (lo as u16)
}

fn push_port(out: &mut Vec<u8>, port: u16)
    ensures
        final(out)@ == old(out)@ + port_bytes(port),
{
    out.push((port / 256) as u8);
    out.push((port % 256) as u8);
    assert(final(out)@ =~= old(out)@ + port_bytes(port));
}

/// Encodes a request reply with code `code` and bound address `bound`.
pub fn encode_reply(code: u8, bound: &SocketAddress) -> (r: Vec<u8>)
    ensures
        r@ == reply_frame(code, bound@),
{
    let mut out: Vec<u8> = Vec::with_capacity(22);
    out.push(SOCKS_VERSION);
    out.push(code);
    out.push(0u8);
    match &bound.ip {
        IpAddress::V4(a) => {
            out.push(IPV4_TYPE);
            let mut i: usize = 0;
            while i < 4
                invariant
                    i <= 4,
                    out@ == seq![SOCKS_VERSION, code, 0u8, IPV4_TYPE] + a@.take(i as int),
                decreases 4 - i,
            {
                out.push(a[i]);
                assert(a@.take(i + 1) =~= a@.take(i as int).push(a@[i as int]));
                i = i + 1;
            }
            assert(a@.take(4) =~= a@);
        },
        IpAddress::V6(a) => {
            out.push(IPV6_TYPE);
            let mut i: usize = 0;
            while i < 16
                invariant
                    i <= 16,
                    out@ == seq![SOCKS_VERSION, code, 0u8, IPV6_TYPE] + a@.take(i as int),
                decreases 16 - i,
            {
                out.push(a[i]);
                assert(a@.take(i + 1) =~= a@.take(i as int).push(a@[i as int]));
                i = i + 1;
            }
            assert(a@.take(16) =~= a@);
        },
    }
    push_port(&mut out, bound.port);
    out
}

/// Reads the IPv4 target of a request: four octets, then the port.
pub fn ipv4_target(b: &[u8]) -> (r: SocketAddress)
    requires
        b@.len() == 6,
    ensures
        r.ip is V4,
        r@ == (b@.subrange(0, 4), be_u16(b@[4], b@[5])),
{
    let ip = IpAddress::V4([b[0], b[1], b[2], b[3]]);
    assert(ip.octets() =~= b@.subrange(0, 4));
    SocketAddress { ip, port: read_port(b[4], b[5]) }
}

/// Reads the IPv6 target of a request: sixteen octets, then the port.
pub fn ipv6_target(b: &[u8]) -> (r: SocketAddress)
    requires
        b@.len() == 18,
    ensures
        r.ip is V6,
        r@ == (b@.subrange(0, 16), be_u16(b@[16], b@[17])),
{
    let ip = IpAddress::V6(
        [
            b[0],
            b[1],
            b[2],
            b[3],
            b[4],
            b[5],
            b[6],
            b[7],
            b[8],
            b[9],
            b[10],
            b[11],
            b[12],
            b[13],
            b[14],
            b[15],
        ],
    );
    assert(ip.octets() =~= b@.subrange(0, 16));
    SocketAddress { ip, port: read_port(b[16], b[17]) }
}

/// Reads a request reply, as a client would; `None` where the bytes are
/// not one.
pub fn decode_reply(b: &[u8]) -> (r: Option<(u8, SocketAddress)>)
    ensures
        r is None <==> parse_reply(b@) is None,
        r matches Some((code, bound)) ==> parse_reply(b@) == Some((code, bound@)),
{
    if b.len() == 10 && b[0] == SOCKS_VERSION && b[2] == 0 && b[3] == IPV4_TYPE {
        let t = ipv4_target(slice_subrange(b, 4, 10));
        Some((b[1], t))
    } else if b.len() == 22 && b[0] == SOCKS_VERSION && b[2] == 0 && b[3] == IPV6_TYPE {
        let t = ipv6_target(slice_subrange(b, 4, 22));
        Some((b[1], t))
    } else {
        None
    }
}

/// Encodes a domain target as a request carries it.
pub fn encode_domain_target(domain: &[u8], port: u16) -> (r: Vec<u8>)
    requires
        domain@.len() <= 255,
    ensures
        r@ == domain_target_bytes(domain@, port),
{
    let mut out: Vec<u8> = Vec::with_capacity(domain.len() + 3);
    out.push(domain.len() as u8);
    let mut i: usize = 0;
    while i < domain.len()
        invariant
            i <= domain@.len(),
            domain@.len() <= 255,
            out@ == seq![domain@.len() as u8] + domain@.take(i as int),
        decreases domain@.len() - i,
    {
        out.push(domain[i]);
        assert(domain@.take(i + 1) =~= domain@.take(i as int).push(domain@[i as int]));
        i = i + 1;
    }
    assert(domain@.take(domain@.len() as int) =~= domain@);
    push_port(&mut out, port);
    out
}

/// Splits a domain target's payload, the bytes after the length byte, into
/// the name and the port.
pub fn split_domain_payload(payload: &[u8]) -> (r: (Vec<u8>, u16))
    requires
        payload@.len() >= 2,
    ensures
        r.0@ == payload_domain(payload@),
        r.1 == payload_port(payload@),
{
    let n = payload.len() - 2;
    let domain = slice_to_vec(slice_subrange(payload, 0, n));
    (domain, read_port(payload[n], payload[n + 1]))
}

/// A copy of `b`.
pub(crate) fn slice_to_vec(b: &[u8]) -> (r: Vec<u8>)
    ensures
        r@ == b@,
{
    let mut out: Vec<u8> = Vec::with_capacity(b.len());
    let mut i: usize = 0;
    while i < b.len()
        invariant
            i <= b@.len(),
            out@ == b@.take(i as int),
        decreases b@.len() - i,
    {
        out.push(b[i]);
        assert(b@.take(i + 1) =~= b@.take(i as int).push(b@[i as int]));
        i = i + 1;
    }
    assert(b@.take(b@.len() as int) =~= b@);
    out
}

/// A reply decodes to the code and bound address it was encoded from, for
/// every code and every IPv4 or IPv6 bound address.
pub proof fn lemma_reply_round_trip(code: u8, bound: SocketAddress)
    ensures
        parse_reply(reply_frame(code, bound@)) == Some((code, bound@)),
{
    let f = reply_frame(code, bound@);
    lemma_port_round_trip(bound.port);
    match bound.ip {
        IpAddress::V4(a) => {
            assert(f.subrange(4, 8) =~= a@);
        },
        IpAddress::V6(a) => {
            assert(f.subrange(4, 20) =~= a@);
        },
    }
}

/// A domain target read back after the length byte yields the name byte
/// for byte and the port, and the length byte gives the payload's size
/// less the port.
pub proof fn lemma_domain_target_round_trip(domain: Seq<u8>, port: u16)
    requires
        domain.len() <= 255,
    ensures
        domain_target_bytes(domain, port)[0] as int == domain.len(),
        payload_domain(domain_target_bytes(domain, port).drop_first()) == domain,
        payload_port(domain_target_bytes(domain, port).drop_first()) == port,
{
    let w = domain_target_bytes(domain, port);
    let p = w.drop_first();
    lemma_port_round_trip(port);
    assert(p =~= domain + port_bytes(port));
    assert(payload_domain(p) =~= domain);
}

/// Every port on the wire is big-endian: a request reply and a domain
/// target end with the port's high byte and then its low byte, and two
/// port bytes read back as the first times 256 plus the second.
pub proof fn lemma_ports_big_endian(
    code: u8,
    bound: SocketAddress,
    domain: Seq<u8>,
    port: u16,
    hi: u8,
    lo: u8,
)
    ensures
        ({
            let f = reply_frame(code, bound@);
            &&& f[f.len() - 2] == bound.port / 256
            &&& f[f.len() - 1] == bound.port % 256
        }),
        ({
            let w = domain_target_bytes(domain, port);
            &&& w[w.len() - 2] == port / 256
            &&& w[w.len() - 1] == port % 256
        }),
        be_u16(hi, lo) as int == hi as int * 256 + lo as int,
{
}

} // verus!
