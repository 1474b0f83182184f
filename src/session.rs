use vstd::prelude::*;
use vstd::utf8::valid_utf8;

use crate::auth::{auth_outcome, authenticate, is_utf8};
use crate::codec::{
    be_u16, first_acceptable, ipv4_target, ipv6_target, payload_domain, payload_port,
    domain_target_bytes, lemma_domain_target_round_trip, reply_frame, select_method, slice_to_vec, split_domain_payload, encode_reply, Endpoint,
    AUTH_FAILED, AUTH_METHOD, AUTH_SUCCEEDED, AUTH_VERSION, CONNECT_COMMAND, DOMAIN_TYPE,
    IPV4_TYPE, IPV6_TYPE, NO_AUTH_METHOD, NO_METHOD, SOCKS_VERSION,
};
use crate::config::Config;
use crate::error::{reply_code_of, Error, IoErrorKind, REPLY_SUCCEEDED};
use crate::net::{IpAddress, SocketAddress};

verus! {

/// Where a connection stands, as the engine sees it. Each state but the
/// last asks its driver for one thing: bytes to read, bytes to write, a
/// name to resolve, addresses to dial, or the relay.
pub enum Session {
    /// Awaiting the version and the number of offered methods.
    Greeting,
    /// Awaiting the offered methods.
    Methods { count: u8 },
    /// Writing the selected method.
    MethodReply { method: u8 },
    /// Awaiting the sub-negotiation version and username length.
    AuthHeader,
    /// Awaiting the username.
    AuthUsername { len: u8 },
    /// Awaiting the password length.
    AuthPasswordLen { username: Vec<u8> },
    /// Awaiting the password.
    AuthPassword { username: Vec<u8>, len: u8 },
    /// Writing the sub-negotiation status.
    AuthReply { outcome: Result<(), Error> },
    /// Awaiting version, command, reserved byte and address type.
    RequestHeader,
    /// Awaiting an IPv4 address and port.
    Ipv4Target,
    /// Awaiting an IPv6 address and port.
    Ipv6Target,
    /// Awaiting a domain's length.
    DomainLen,
    /// Awaiting a domain and port.
    DomainTarget { len: u8 },
    /// Resolving a domain.
    Resolving { domain: Vec<u8>, port: u16 },
    /// Dialing the candidates in order.
    Dialing { candidates: Vec<SocketAddress> },
    /// Writing the request reply.
    RequestReply { bound: SocketAddress, outcome: Result<(), Error> },
    /// Relaying bytes both ways.
    Relaying,
    /// Finished.
    Closed { outcome: Result<(), Error> },
}

/// What the driver reports back after carrying out an action.
pub enum Event {
    /// The bytes read for a `Read`.
    Received(Vec<u8>),
    /// The bytes of a `Send` were written.
    Sent,
    /// The addresses a `Resolve` produced, in resolution order.
    Resolved(Vec<SocketAddress>),
    /// A `Connect` succeeded; the local address of the upstream socket.
    Connected(SocketAddress),
    /// The action failed.
    Failed(IoErrorKind),
    /// Both directions of the relay ended.
    RelayFinished,
}

/// What the engine asks its driver to do next.
pub enum Action {
    /// Read exactly this many bytes from the client.
    Read(usize),
    /// Write these bytes to the client.
    Send(Vec<u8>),
    /// Resolve this UTF-8 name, with this port, to socket addresses.
    Resolve(Vec<u8>, u16),
    /// Connect to the first of these addresses that accepts.
    Connect(Vec<SocketAddress>),
    /// Copy bytes between client and upstream until both ends close.
    Relay,
    /// Shut the connection down; the outcome is for the log.
    Close(Result<(), Error>),
}

/// The model of a `Session`.
pub enum Phase {
    Greeting,
    Methods { count: u8 },
    MethodReply { method: u8 },
    AuthHeader,
    AuthUsername { len: u8 },
    AuthPasswordLen { username: Seq<u8> },
    AuthPassword { username: Seq<u8>, len: u8 },
    AuthReply { outcome: Result<(), Error> },
    RequestHeader,
    Ipv4Target,
    Ipv6Target,
    DomainLen,
    DomainTarget { len: u8 },
    Resolving { domain: Seq<u8>, port: u16 },
    Dialing { candidates: Seq<Endpoint> },
    RequestReply { bound: Endpoint, outcome: Result<(), Error> },
    Relaying,
    Closed { outcome: Result<(), Error> },
}

/// The model of an `Event`.
pub enum Input {
    Received(Seq<u8>),
    Sent,
    Resolved(Seq<Endpoint>),
    Connected(Endpoint),
    Failed(IoErrorKind),
    RelayFinished,
}

/// The model of an `Action`.
pub enum Step {
    Read(nat),
    Send(Seq<u8>),
    Resolve(Seq<u8>, u16),
    Connect(Seq<Endpoint>),
    Relay,
    Close(Result<(), Error>),
}

pub open spec fn endpoints(a: Seq<SocketAddress>) -> Seq<Endpoint> {
    a.map_values(|x: SocketAddress| x@)
}

impl View for Session {
    type V = Phase;

    open spec fn view(&self) -> Phase {
        match self {
            Session::Greeting => Phase::Greeting,
            Session::Methods { count } => Phase::Methods { count: *count },
            Session::MethodReply { method } => Phase::MethodReply { method: *method },
            Session::AuthHeader => Phase::AuthHeader,
            Session::AuthUsername { len } => Phase::AuthUsername { len: *len },
            Session::AuthPasswordLen { username } => Phase::AuthPasswordLen { username: username@ },
            Session::AuthPassword { username, len } => Phase::AuthPassword {
                username: username@,
                len: *len,
            },
            Session::AuthReply { outcome } => Phase::AuthReply { outcome: *outcome },
            Session::RequestHeader => Phase::RequestHeader,
            Session::Ipv4Target => Phase::Ipv4Target,
            Session::Ipv6Target => Phase::Ipv6Target,
            Session::DomainLen => Phase::DomainLen,
            Session::DomainTarget { len } => Phase::DomainTarget { len: *len },
            Session::Resolving { domain, port } => Phase::Resolving { domain: domain@, port: *port },
            Session::Dialing { candidates } => Phase::Dialing { candidates: endpoints(candidates@) },
            Session::RequestReply { bound, outcome } => Phase::RequestReply {
                bound: bound@,
                outcome: *outcome,
            },
            Session::Relaying => Phase::Relaying,
            Session::Closed { outcome } => Phase::Closed { outcome: *outcome },
        }
    }
}

impl View for Event {
    type V = Input;

    open spec fn view(&self) -> Input {
        match self {
            Event::Received(b) => Input::Received(b@),
            Event::Sent => Input::Sent,
            Event::Resolved(a) => Input::Resolved(endpoints(a@)),
            Event::Connected(a) => Input::Connected(a@),
            Event::Failed(k) => Input::Failed(*k),
            Event::RelayFinished => Input::RelayFinished,
        }
    }
}

impl View for Action {
    type V = Step;

    open spec fn view(&self) -> Step {
        match self {
            Action::Read(n) => Step::Read(*n as nat),
            Action::Send(b) => Step::Send(b@),
            Action::Resolve(d, p) => Step::Resolve(d@, *p),
            Action::Connect(a) => Step::Connect(endpoints(a@)),
            Action::Relay => Step::Relay,
            Action::Close(o) => Step::Close(*o),
        }
    }
}

/// The bound address a failed request reports: 0.0.0.0, port 0.
pub open spec fn unspecified_bound() -> Endpoint {
    (seq![0u8, 0u8, 0u8, 0u8], 0u16)
}

/// The reply owed to a request that failed with `e`.
pub open spec fn request_failed(e: Error) -> Phase {
    Phase::RequestReply { bound: unspecified_bound(), outcome: Err(e) }
}

/// The request header has been read and its reply not yet decided.
pub open spec fn owes_reply(s: Phase) -> bool {
    ||| s is Ipv4Target
    ||| s is Ipv6Target
    ||| s is DomainLen
    ||| s is DomainTarget
    ||| s is Resolving
    ||| s is Dialing
}

/// Where a failure `e` leads: a failure reply once the request header is
/// in, else the end of the connection.
pub open spec fn fail(s: Phase, e: Error) -> Phase {
    if s is Closed {
        s
    } else if owes_reply(s) {
        request_failed(e)
    } else {
        Phase::Closed { outcome: Err(e) }
    }
}

/// The number of bytes a reading state waits for.
pub open spec fn read_len(s: Phase) -> Option<nat> {
    match s {
        Phase::Greeting => Some(2),
        Phase::Methods { count } => Some(count as nat),
        Phase::AuthHeader => Some(2),
        Phase::AuthUsername { len } => Some(len as nat),
        Phase::AuthPasswordLen { .. } => Some(1),
        Phase::AuthPassword { len, .. } => Some(len as nat),
        Phase::RequestHeader => Some(4),
        Phase::Ipv4Target => Some(6),
        Phase::Ipv6Target => Some(18),
        Phase::DomainLen => Some(1),
        Phase::DomainTarget { len } => Some(len as nat + 2),
        _ => None,
    }
}

/// The state after a reading state `s` got the bytes `b` it asked for.
pub open spec fn received(s: Phase, config: &Config, b: Seq<u8>) -> Phase {
    match s {
        Phase::Greeting => if b[0] != SOCKS_VERSION {
            Phase::Closed { outcome: Err(Error::InvalidVersion) }
        } else if b[1] == 0 {
            Phase::MethodReply { method: NO_METHOD }
        } else {
            Phase::Methods { count: b[1] }
        },
        Phase::Methods { .. } => Phase::MethodReply { method: first_acceptable(config, b) },
        Phase::AuthHeader => if b[0] != AUTH_VERSION {
            Phase::Closed { outcome: Err(Error::InvalidVersion) }
        } else {
            Phase::AuthUsername { len: b[1] }
        },
        Phase::AuthUsername { .. } => Phase::AuthPasswordLen { username: b },
        Phase::AuthPasswordLen { username } => Phase::AuthPassword { username, len: b[0] },
        Phase::AuthPassword { username, .. } => Phase::AuthReply {
            outcome: auth_outcome(config, username, b),
        },
        Phase::RequestHeader => if b[0] != SOCKS_VERSION {
            request_failed(Error::InvalidVersion)
        } else if b[1] != CONNECT_COMMAND {
            request_failed(Error::CommandUnsupported)
        } else if b[3] == IPV4_TYPE {
            Phase::Ipv4Target
        } else if b[3] == DOMAIN_TYPE {
            Phase::DomainLen
        } else if b[3] == IPV6_TYPE {
            Phase::Ipv6Target
        } else {
            request_failed(Error::AddrUnsupported)
        },
        Phase::Ipv4Target => Phase::Dialing {
            candidates: seq![(b.subrange(0, 4), be_u16(b[4], b[5]))],
        },
        Phase::Ipv6Target => Phase::Dialing {
            candidates: seq![(b.subrange(0, 16), be_u16(b[16], b[17]))],
        },
        Phase::DomainLen => Phase::DomainTarget { len: b[0] },
        Phase::DomainTarget { .. } => if valid_utf8(payload_domain(b)) {
            Phase::Resolving { domain: payload_domain(b), port: payload_port(b) }
        } else {
            request_failed(Error::Utf8)
        },
        _ => s,
    }
}

/// The state after a writing state `s` had its bytes written.
pub open spec fn sent(s: Phase) -> Phase {
    match s {
        Phase::MethodReply { method } => if method == NO_AUTH_METHOD {
            Phase::RequestHeader
        } else if method == AUTH_METHOD {
            Phase::AuthHeader
        } else {
            Phase::Closed { outcome: Err(Error::NoAcceptableMethod) }
        },
        Phase::AuthReply { outcome } => match outcome {
            Ok(()) => Phase::RequestHeader,
            Err(e) => Phase::Closed { outcome: Err(e) },
        },
        Phase::RequestReply { outcome, .. } => match outcome {
            Ok(()) => Phase::Relaying,
            Err(e) => Phase::Closed { outcome: Err(e) },
        },
        _ => s,
    }
}

pub open spec fn is_writing(s: Phase) -> bool {
    s is MethodReply || s is AuthReply || s is RequestReply
}

/// The transition function of the engine. A closed session stays closed;
/// an event that the state did not ask for counts as a failure.
pub open spec fn next(s: Phase, config: &Config, ev: Input) -> Phase {
    if s is Closed {
        s
    } else {
        match ev {
            Input::Received(b) => match read_len(s) {
                Some(n) => if b.len() == n {
                    received(s, config, b)
                } else {
                    fail(s, Error::Io(IoErrorKind::UnexpectedEof))
                },
                None => fail(s, Error::Io(IoErrorKind::Other)),
            },
            Input::Sent => if is_writing(s) {
                sent(s)
            } else {
                fail(s, Error::Io(IoErrorKind::Other))
            },
            Input::Resolved(addrs) => if s is Resolving {
                if addrs.len() == 0 {
                    request_failed(Error::AddrUnsupported)
                } else {
                    Phase::Dialing { candidates: addrs }
                }
            } else {
                fail(s, Error::Io(IoErrorKind::Other))
            },
            Input::Connected(local) => if s is Dialing {
                Phase::RequestReply { bound: local, outcome: Ok(()) }
            } else {
                fail(s, Error::Io(IoErrorKind::Other))
            },
            Input::Failed(kind) => fail(s, Error::Io(kind)),
            Input::RelayFinished => if s is Relaying {
                Phase::Closed { outcome: Ok(()) }
            } else {
                fail(s, Error::Io(IoErrorKind::Other))
            },
        }
    }
}

/// The reply code that a request reply with `outcome` carries.
pub open spec fn outcome_code(outcome: Result<(), Error>) -> u8 {
    match outcome {
        Ok(()) => REPLY_SUCCEEDED,
        Err(e) => reply_code_of(e),
    }
}

/// What the engine asks for in state `s`.
pub open spec fn action_of(s: Phase) -> Step {
    match s {
        Phase::MethodReply { method } => Step::Send(seq![SOCKS_VERSION, method]),
        Phase::AuthReply { outcome } => Step::Send(
            seq![AUTH_VERSION, if outcome is Ok { AUTH_SUCCEEDED } else { AUTH_FAILED }],
        ),
        Phase::RequestReply { bound, outcome } => Step::Send(
            reply_frame(outcome_code(outcome), bound),
        ),
        Phase::Resolving { domain, port } => Step::Resolve(domain, port),
        Phase::Dialing { candidates } => Step::Connect(candidates),
        Phase::Relaying => Step::Relay,
        Phase::Closed { outcome } => Step::Close(outcome),
        _ => Step::Read(read_len(s).unwrap()),
    }
}

fn copy_addresses(a: &[SocketAddress]) -> (r: Vec<SocketAddress>)
    ensures
        r@ == a@,
{
    let mut out: Vec<SocketAddress> = Vec::with_capacity(a.len());
    let mut i: usize = 0;
    while i < a.len()
        invariant
            i <= a@.len(),
            out@ == a@.take(i as int),
        decreases a@.len() - i,
    {
        out.push(a[i]);
        assert(a@.take(i + 1) =~= a@.take(i as int).push(a@[i as int]));
        i = i + 1;
    }
    assert(a@.take(a@.len() as int) =~= a@);
    out
}

impl Session {
    /// A connection that has just been admitted.
    pub fn new() -> (r: Session)
        ensures
            r@ == Phase::Greeting,
    {
        Session::Greeting
    }

    /// Whether the session has finished.
    pub fn is_closed(&self) -> (r: bool)
        ensures
            r == (self@ is Closed),
    {
        matches!(self, Session::Closed { .. })
    }

    fn read_len(&self) -> (r: Option<usize>)
        ensures
            r is Some <==> read_len(self@) is Some,
            r matches Some(n) ==> read_len(self@) == Some(n as nat),
    {
        match self {
            Session::Greeting => Some(2),
            Session::Methods { count } => Some(*count as usize),
            Session::AuthHeader => Some(2),
            Session::AuthUsername { len } => Some(*len as usize),
            Session::AuthPasswordLen { .. } => Some(1),
            Session::AuthPassword { len, .. } => Some(*len as usize),
            Session::RequestHeader => Some(4),
            Session::Ipv4Target => Some(6),
            Session::Ipv6Target => Some(18),
            Session::DomainLen => Some(1),
            Session::DomainTarget { len } => Some(*len as usize + 2),
            _ => None,
        }
    }

    fn request_failed(e: Error) -> (r: Session)
        ensures
            r@ == request_failed(e),
    {
        Session::RequestReply {
            bound: SocketAddress { ip: IpAddress::unspecified_v4(), port: 0 },
            outcome: Err(e),
        }
    }

    fn fail(self, e: Error) -> (r: Session)
        ensures
            r@ == fail(self@, e),
    {
        match self {
            Session::Closed { outcome } => Session::Closed { outcome },
            Session::Ipv4Target | Session::Ipv6Target | Session::DomainLen | Session::DomainTarget {
                ..
            }
            | Session::Resolving { .. }
            | Session::Dialing { .. } => Session::request_failed(e),
            _ => Session::Closed { outcome: Err(e) },
        }
    }

    fn received(self, config: &Config, b: Vec<u8>) -> (r: Session)
        requires
            read_len(self@) == Some(b@.len()),
        ensures
            r@ == received(self@, config, b@),
    {
        match self {
            Session::Greeting => if b[0] != SOCKS_VERSION {
                Session::Closed { outcome: Err(Error::InvalidVersion) }
            } else if b[1] == 0 {
                Session::MethodReply { method: NO_METHOD }
            } else {
                Session::Methods { count: b[1] }
            },
            Session::Methods { .. } => Session::MethodReply {
                method: select_method(config, b.as_slice()),
            },
            Session::AuthHeader => if b[0] != AUTH_VERSION {
                Session::Closed { outcome: Err(Error::InvalidVersion) }
            } else {
                Session::AuthUsername { len: b[1] }
            },
            Session::AuthUsername { .. } => Session::AuthPasswordLen { username: b },
            Session::AuthPasswordLen { username } => Session::AuthPassword { username, len: b[0] },
            Session::AuthPassword { username, .. } => Session::AuthReply {
                outcome: authenticate(config, username.as_slice(), b.as_slice()),
            },
            Session::RequestHeader => if b[0] != SOCKS_VERSION {
                Session::request_failed(Error::InvalidVersion)
            } else if b[1] != CONNECT_COMMAND {
                Session::request_failed(Error::CommandUnsupported)
            } else if b[3] == IPV4_TYPE {
                Session::Ipv4Target
            } else if b[3] == DOMAIN_TYPE {
                Session::DomainLen
            } else if b[3] == IPV6_TYPE {
                Session::Ipv6Target
            } else {
                Session::request_failed(Error::AddrUnsupported)
            },
            Session::Ipv4Target => {
                let target = ipv4_target(b.as_slice());
                let candidates = vec![target];
                assert(endpoints(candidates@) =~= seq![target@]);
                Session::Dialing { candidates }
            },
            Session::Ipv6Target => {
                let target = ipv6_target(b.as_slice());
                let candidates = vec![target];
                assert(endpoints(candidates@) =~= seq![target@]);
                Session::Dialing { candidates }
            },
            Session::DomainLen => Session::DomainTarget { len: b[0] },
            Session::DomainTarget { .. } => {
                let (domain, port) = split_domain_payload(b.as_slice());
                if is_utf8(domain.as_slice()) {
                    Session::Resolving { domain, port }
                } else {
                    Session::request_failed(Error::Utf8)
                }
            },
            other => other,
        }
    }

    fn sent(self) -> (r: Session)
        ensures
            r@ == sent(self@),
    {
        match self {
            Session::MethodReply { method } => if method == NO_AUTH_METHOD {
                Session::RequestHeader
            } else if method == AUTH_METHOD {
                Session::AuthHeader
            } else {
                Session::Closed { outcome: Err(Error::NoAcceptableMethod) }
            },
            Session::AuthReply { outcome } => match outcome {
                Ok(()) => Session::RequestHeader,
                Err(e) => Session::Closed { outcome: Err(e) },
            },
            Session::RequestReply { outcome, .. } => match outcome {
                Ok(()) => Session::Relaying,
                Err(e) => Session::Closed { outcome: Err(e) },
            },
            other => other,
        }
    }

    /// Advances the session by the outcome of the action it asked for.
    pub fn step(self, config: &Config, event: Event) -> (r: Session)
        ensures
            r@ == next(self@, config, event@),
    {
        if self.is_closed() {
            return self;
        }
        match event {
            Event::Received(b) => match self.read_len() {
                Some(n) => if b.len() == n {
                    self.received(config, b)
                } else {
                    self.fail(Error::Io(IoErrorKind::UnexpectedEof))
                },
                None => self.fail(Error::Io(IoErrorKind::Other)),
            },
            Event::Sent => match self {
                Session::MethodReply { .. }
                | Session::AuthReply { .. }
                | Session::RequestReply { .. } => self.sent(),
                _ => self.fail(Error::Io(IoErrorKind::Other)),
            },
            Event::Resolved(addrs) => match self {
                Session::Resolving { .. } => if addrs.len() == 0 {
                    Session::request_failed(Error::AddrUnsupported)
                } else {
                    Session::Dialing { candidates: addrs }
                },
                _ => self.fail(Error::Io(IoErrorKind::Other)),
            },
            Event::Connected(local) => match self {
                Session::Dialing { .. } => Session::RequestReply { bound: local, outcome: Ok(()) },
                _ => self.fail(Error::Io(IoErrorKind::Other)),
            },
            Event::Failed(kind) => self.fail(Error::Io(kind)),
            Event::RelayFinished => match self {
                Session::Relaying => Session::Closed { outcome: Ok(()) },
                _ => self.fail(Error::Io(IoErrorKind::Other)),
            },
        }
    }

    /// What the driver is to do next.
    pub fn action(&self) -> (r: Action)
        ensures
            r@ == action_of(self@),
    {
        match self {
            Session::MethodReply { method } => Action::Send(vec![SOCKS_VERSION, *method]),
            Session::AuthReply { outcome } => {
                let status = if outcome.is_ok() {
                    AUTH_SUCCEEDED
                } else {
                    AUTH_FAILED
                };
                Action::Send(vec![AUTH_VERSION, status])
            },
            Session::RequestReply { bound, outcome } => {
                let code = match outcome {
                    Ok(()) => REPLY_SUCCEEDED,
                    Err(e) => e.reply_code(),
                };
                Action::Send(encode_reply(code, bound))
            },
            Session::Resolving { domain, port } => Action::Resolve(
                slice_to_vec(domain.as_slice()),
                *port,
            ),
            Session::Dialing { candidates } => Action::Connect(
                copy_addresses(candidates.as_slice()),
            ),
            Session::Relaying => Action::Relay,
            Session::Closed { outcome } => Action::Close(*outcome),
            _ => {
                let n = self.read_len();
                Action::Read(n.unwrap())
            },
        }
    }
}

/// The states a session passes through from `s` as the events `evs`
/// arrive, `s` first.
pub open spec fn trace(s: Phase, config: &Config, evs: Seq<Input>) -> Seq<Phase>
    decreases evs.len(),
{
    if evs.len() == 0 {
        seq![s]
    } else {
        seq![s] + trace(next(s, config, evs[0]), config, evs.drop_first())
    }
}

/// How many of the states in `t` write a frame to the client.
pub open spec fn writes(t: Seq<Phase>) -> nat
    decreases t.len(),
{
    if t.len() == 0 {
        0
    } else {
        (if action_of(t[0]) is Send {
            1nat
        } else {
            0nat
        }) + writes(t.drop_first())
    }
}

proof fn lemma_trace_empty(s: Phase, config: &Config, evs: Seq<Input>)
    requires
        evs.len() == 0,
    ensures
        writes(trace(s, config, evs)) == (if action_of(s) is Send {
            1nat
        } else {
            0nat
        }),
{
    assert(trace(s, config, evs).drop_first() =~= Seq::<Phase>::empty());
    assert(writes(Seq::<Phase>::empty()) == 0);
}

proof fn lemma_trace_unfold(s: Phase, config: &Config, evs: Seq<Input>)
    requires
        evs.len() > 0,
    ensures
        trace(s, config, evs)[0] == s,
        trace(s, config, evs).drop_first() == trace(next(s, config, evs[0]), config, evs.drop_first()),
        writes(trace(s, config, evs)) == (if action_of(s) is Send {
            1nat
        } else {
            0nat
        }) + writes(trace(next(s, config, evs[0]), config, evs.drop_first())),
{
    let rest = trace(next(s, config, evs[0]), config, evs.drop_first());
    assert((seq![s] + rest).drop_first() =~= rest);
}

proof fn lemma_trace_steps(s: Phase, config: &Config, evs: Seq<Input>)
    ensures
        trace(s, config, evs).len() == evs.len() + 1,
        trace(s, config, evs)[0] == s,
        forall|k: int|
            0 <= k < evs.len() ==> #[trigger] trace(s, config, evs)[k + 1] == next(
                trace(s, config, evs)[k],
                config,
                evs[k],
            ),
    decreases evs.len(),
{
    if evs.len() > 0 {
        let t = next(s, config, evs[0]);
        let rest = evs.drop_first();
        lemma_trace_steps(t, config, rest);
        assert forall|k: int| 0 <= k < evs.len() implies #[trigger] trace(s, config, evs)[k + 1]
            == next(trace(s, config, evs)[k], config, evs[k]) by {
            if k > 0 {
                assert(trace(s, config, evs)[k + 1] == trace(t, config, rest)[k]);
                assert(trace(s, config, evs)[k] == trace(t, config, rest)[k - 1]);
                assert(rest[k - 1] == evs[k]);
            }
        }
    }
}

proof fn lemma_no_writes_after_reply(s: Phase, config: &Config, evs: Seq<Input>)
    requires
        s is Relaying || s is Closed,
    ensures
        writes(trace(s, config, evs)) == 0,
    decreases evs.len(),
{
    if evs.len() == 0 {
        lemma_trace_empty(s, config, evs);
    } else {
        lemma_trace_unfold(s, config, evs);
        lemma_no_writes_after_reply(next(s, config, evs[0]), config, evs.drop_first());
    }
}

proof fn lemma_reply_written_once(s: Phase, config: &Config, evs: Seq<Input>)
    requires
        s is RequestReply,
    ensures
        writes(trace(s, config, evs)) == 1,
{
    if evs.len() == 0 {
        lemma_trace_empty(s, config, evs);
    } else {
        lemma_trace_unfold(s, config, evs);
        lemma_no_writes_after_reply(next(s, config, evs[0]), config, evs.drop_first());
    }
}

/// Once a CONNECT request is resolving or dialing, the client is written
/// at most one frame whatever happens, and exactly one, the request reply,
/// once the driver has reported the outcome of the resolution (if any) and
/// of the dial.
pub proof fn lemma_one_reply_per_request(s: Phase, config: &Config, evs: Seq<Input>)
    requires
        s is Resolving || s is Dialing,
    ensures
        writes(trace(s, config, evs)) <= 1,
        evs.len() >= 2 ==> writes(trace(s, config, evs)) == 1,
        s is Dialing && evs.len() >= 1 ==> writes(trace(s, config, evs)) == 1,
    decreases evs.len(),
{
    if evs.len() == 0 {
        lemma_trace_empty(s, config, evs);
    } else {
        lemma_trace_unfold(s, config, evs);
        let t = next(s, config, evs[0]);
        if t is RequestReply {
            lemma_reply_written_once(t, config, evs.drop_first());
        } else {
            lemma_one_reply_per_request(t, config, evs.drop_first());
        }
    }
}

/// A session starts relaying only straight after the success reply of its
/// request has been written: in every run that does not start in the
/// relay, each relaying state follows a request reply with a successful
/// outcome that the driver reported written.
pub proof fn lemma_relay_follows_success_reply(
    s: Phase,
    config: &Config,
    evs: Seq<Input>,
    i: int,
)
    requires
        !(s is Relaying),
        0 <= i <= evs.len(),
        trace(s, config, evs)[i] is Relaying,
    ensures
        i >= 1,
        trace(s, config, evs)[i - 1] matches Phase::RequestReply { outcome: Ok(()), .. },
        evs[i - 1] is Sent,
{
    lemma_trace_steps(s, config, evs);
    if i >= 1 {
        assert(trace(s, config, evs)[(i - 1) + 1] == next(
            trace(s, config, evs)[i - 1],
            config,
            evs[i - 1],
        ));
    }
}

/// A domain target written as a request carries it and read by the engine
/// reaches resolution with the same name, byte for byte, and the same port;
/// the name must be UTF-8, as the engine refuses any other.
pub proof fn lemma_domain_target_read(config: &Config, domain: Seq<u8>, port: u16)
    requires
        domain.len() <= 255,
        valid_utf8(domain),
    ensures
        ({
            let w = domain_target_bytes(domain, port);
            let s1 = next(Phase::DomainLen, config, Input::Received(w.take(1)));
            next(s1, config, Input::Received(w.skip(1))) == Phase::Resolving { domain, port }
        }),
{
    let w = domain_target_bytes(domain, port);
    lemma_domain_target_round_trip(domain, port);
    assert(w.skip(1) =~= w.drop_first());
    assert(w.take(1) =~= seq![domain.len() as u8]);
}

} // verus!
