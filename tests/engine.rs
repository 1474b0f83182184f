use argon2::password_hash::SaltString;
use argon2::{Algorithm, Argon2, Params, PasswordHasher, Version};
use koblas::{Action, Config, Error, Event, IoErrorKind, IpAddress, Session, SocketAddress};

/// What a scripted connection produced: the bytes written to the client,
/// the outcome the session closed with, whether it relayed, and the
/// domain and addresses it asked for.
struct Transcript {
    written: Vec<u8>,
    outcome: Result<(), Error>,
    relayed: bool,
    resolved: Option<(Vec<u8>, u16)>,
    dialed: Vec<SocketAddress>,
}

/// Runs a session against a client that sends `input`, a resolver that
/// answers `resolution`, and a dialer that answers `dial`.
fn drive(
    config: &Config,
    input: &[u8],
    resolution: Result<Vec<SocketAddress>, IoErrorKind>,
    dial: Result<SocketAddress, IoErrorKind>,
) -> Transcript {
    let mut session = Session::new();
    let mut pos = 0usize;
    let mut t = Transcript {
        written: Vec::new(),
        outcome: Ok(()),
        relayed: false,
        resolved: None,
        dialed: Vec::new(),
    };
    loop {
        let event = match session.action() {
            Action::Read(n) => {
                if pos + n <= input.len() {
                    let chunk = input[pos..pos + n].to_vec();
                    pos += n;
                    Event::Received(chunk)
                } else {
                    Event::Failed(IoErrorKind::UnexpectedEof)
                }
            }
            Action::Send(bytes) => {
                assert!(!t.relayed);
                t.written.extend_from_slice(&bytes);
                Event::Sent
            }
            Action::Resolve(domain, port) => {
                t.resolved = Some((domain, port));
                match &resolution {
                    Ok(addrs) => Event::Resolved(addrs.clone()),
                    Err(kind) => Event::Failed(*kind),
                }
            }
            Action::Connect(addrs) => {
                t.dialed = addrs;
                match dial {
                    Ok(local) => Event::Connected(local),
                    Err(kind) => Event::Failed(kind),
                }
            }
            Action::Relay => {
                t.relayed = true;
                Event::RelayFinished
            }
            Action::Close(outcome) => {
                t.outcome = outcome;
                return t;
            }
        };
        session = session.step(config, event);
    }
}

fn v4(a: [u8; 4], port: u16) -> SocketAddress {
    SocketAddress { ip: IpAddress::V4(a), port }
}

fn open_config() -> Config {
    let mut c = Config::default();
    c.require_auth = false;
    c
}

fn light_phc(password: &[u8]) -> String {
    let salt = SaltString::from_b64("c2FsdHNhbHRzYWx0").unwrap();
    let argon = Argon2::new(
        Algorithm::Argon2id,
        Version::V0x13,
        Params::new(8, 1, 1, None).unwrap(),
    );
    argon.hash_password(password, &salt).unwrap().to_string()
}

fn alice_config() -> Config {
    let mut c = Config::default();
    c.require_auth = true;
    c.users = vec![("alice".to_string(), light_phc(b"pw"))];
    c
}

fn auth_frame(user: &[u8], pass: &[u8]) -> Vec<u8> {
    let mut f = vec![0x01, user.len() as u8];
    f.extend_from_slice(user);
    f.push(pass.len() as u8);
    f.extend_from_slice(pass);
    f
}

const UPSTREAM_LOCAL: [u8; 4] = [127, 0, 0, 1];

#[test]
fn no_auth_ipv4_connect_success() {
    let config = open_config();
    let mut input = vec![0x05, 0x01, 0x00];
    input.extend_from_slice(&[0x05, 0x01, 0x00, 0x01, 0x7F, 0x00, 0x00, 0x01, 0x00, 0x50]);
    let t = drive(&config, &input, Ok(vec![]), Ok(v4(UPSTREAM_LOCAL, 0xC350)));
    assert_eq!(
        t.written,
        vec![0x05, 0x00, 0x05, 0x00, 0x00, 0x01, 127, 0, 0, 1, 0xC3, 0x50]
    );
    assert_eq!(t.dialed.len(), 1);
    assert!(matches!(t.dialed[0].ip, IpAddress::V4([127, 0, 0, 1])));
    assert_eq!(t.dialed[0].port, 80);
    assert!(t.relayed);
    assert_eq!(t.outcome, Ok(()));
}

#[test]
fn method_negotiation_rejected() {
    let mut config = Config::default();
    config.require_auth = true;
    let t = drive(&config, &[0x05, 0x01, 0x00], Ok(vec![]), Err(IoErrorKind::Other));
    assert_eq!(t.written, vec![0x05, 0xFF]);
    assert_eq!(t.outcome, Err(Error::NoAcceptableMethod));
    assert!(!t.relayed);
}

#[test]
fn auth_failure() {
    let config = alice_config();
    let mut input = vec![0x05, 0x01, 0x02];
    input.extend(auth_frame(b"alice", b"no"));
    let t = drive(&config, &input, Ok(vec![]), Err(IoErrorKind::Other));
    assert_eq!(t.written, vec![0x05, 0x02, 0x01, 0x01]);
    assert_eq!(t.outcome, Err(Error::Password));
    assert!(!t.relayed);
}

#[test]
fn auth_success_then_connect() {
    let config = alice_config();
    let mut input = vec![0x05, 0x01, 0x02];
    input.extend(auth_frame(b"alice", b"pw"));
    input.extend_from_slice(&[0x05, 0x01, 0x00, 0x01, 10, 1, 2, 3, 0x01, 0xBB]);
    let t = drive(&config, &input, Ok(vec![]), Ok(v4([10, 0, 0, 9], 4000)));
    assert_eq!(
        t.written,
        vec![0x05, 0x02, 0x01, 0x00, 0x05, 0x00, 0x00, 0x01, 10, 0, 0, 9, 0x0F, 0xA0]
    );
    assert_eq!(t.dialed[0].port, 443);
    assert!(t.relayed);
}

#[test]
fn auth_unknown_user() {
    let config = alice_config();
    let mut input = vec![0x05, 0x01, 0x02];
    input.extend(auth_frame(b"bob", b"pw"));
    let t = drive(&config, &input, Ok(vec![]), Err(IoErrorKind::Other));
    assert_eq!(t.written, vec![0x05, 0x02, 0x01, 0x01]);
    assert_eq!(t.outcome, Err(Error::UsernameNotFound));
}

#[test]
fn auth_malformed_stored_hash() {
    let mut config = Config::default();
    config.users = vec![("carol".to_string(), "not a phc string".to_string())];
    let mut input = vec![0x05, 0x01, 0x02];
    input.extend(auth_frame(b"carol", b"pw"));
    let t = drive(&config, &input, Ok(vec![]), Err(IoErrorKind::Other));
    assert_eq!(t.written, vec![0x05, 0x02, 0x01, 0x01]);
    assert_eq!(t.outcome, Err(Error::Password));
}

#[test]
fn auth_username_not_utf8() {
    let config = alice_config();
    let mut input = vec![0x05, 0x01, 0x02];
    input.extend(auth_frame(&[0xC3, 0x28], b"pw"));
    let t = drive(&config, &input, Ok(vec![]), Err(IoErrorKind::Other));
    assert_eq!(t.written, vec![0x05, 0x02, 0x01, 0x01]);
    assert_eq!(t.outcome, Err(Error::Utf8));
}

#[test]
fn auth_version_mismatch_closes_without_reply() {
    let config = alice_config();
    let mut input = vec![0x05, 0x01, 0x02];
    let mut frame = auth_frame(b"alice", b"pw");
    frame[0] = 0x05;
    input.extend(frame);
    let t = drive(&config, &input, Ok(vec![]), Err(IoErrorKind::Other));
    assert_eq!(t.written, vec![0x05, 0x02]);
    assert_eq!(t.outcome, Err(Error::InvalidVersion));
}

#[test]
fn unsupported_command() {
    let config = open_config();
    let mut input = vec![0x05, 0x01, 0x00];
    input.extend_from_slice(&[0x05, 0x02, 0x00, 0x01, 0x00, 0x00, 0x00, 0x00, 0x00, 0x00]);
    let t = drive(&config, &input, Ok(vec![]), Err(IoErrorKind::Other));
    assert_eq!(
        t.written,
        vec![0x05, 0x00, 0x05, 0x07, 0x00, 0x01, 0x00, 0x00, 0x00, 0x00, 0x00, 0x00]
    );
    assert_eq!(t.outcome, Err(Error::CommandUnsupported));
    assert!(t.dialed.is_empty());
}

#[test]
fn unsupported_address_type() {
    let config = open_config();
    let mut input = vec![0x05, 0x01, 0x00];
    input.extend_from_slice(&[0x05, 0x01, 0x00, 0x05, 0xAA, 0xBB]);
    let t = drive(&config, &input, Ok(vec![]), Err(IoErrorKind::Other));
    assert_eq!(
        t.written,
        vec![0x05, 0x00, 0x05, 0x08, 0x00, 0x01, 0x00, 0x00, 0x00, 0x00, 0x00, 0x00]
    );
    assert_eq!(t.outcome, Err(Error::AddrUnsupported));
}

#[test]
fn domain_connect_resolution_empty() {
    let config = open_config();
    let mut input = vec![0x05, 0x01, 0x00];
    input.extend_from_slice(&[0x05, 0x01, 0x00, 0x03, 0x09]);
    input.extend_from_slice(b"localhost");
    input.extend_from_slice(&[0x00, 0x50]);
    let t = drive(&config, &input, Ok(vec![]), Err(IoErrorKind::Other));
    assert_eq!(t.resolved, Some((b"localhost".to_vec(), 80)));
    assert_eq!(
        t.written,
        vec![0x05, 0x00, 0x05, 0x08, 0x00, 0x01, 0x00, 0x00, 0x00, 0x00, 0x00, 0x00]
    );
    assert_eq!(t.outcome, Err(Error::AddrUnsupported));
    assert!(t.dialed.is_empty());
}

#[test]
fn domain_connect_dials_candidates_in_order() {
    let config = open_config();
    let mut input = vec![0x05, 0x01, 0x00];
    input.extend(vec![0x05, 0x01, 0x00, 0x03]);
    input.extend(koblas::encode_domain_target(b"example.org", 8080));
    let candidates = vec![v4([192, 0, 2, 1], 8080), v4([192, 0, 2, 2], 8080)];
    let t = drive(&config, &input, Ok(candidates), Ok(v4([192, 0, 2, 100], 1)));
    assert_eq!(t.resolved, Some((b"example.org".to_vec(), 8080)));
    assert_eq!(t.dialed.len(), 2);
    assert!(matches!(t.dialed[0].ip, IpAddress::V4([192, 0, 2, 1])));
    assert!(matches!(t.dialed[1].ip, IpAddress::V4([192, 0, 2, 2])));
    assert_eq!(&t.written[2..], &[0x05, 0x00, 0x00, 0x01, 192, 0, 2, 100, 0x00, 0x01]);
    assert!(t.relayed);
}

#[test]
fn domain_not_utf8_is_address_unsupported() {
    let config = open_config();
    let mut input = vec![0x05, 0x01, 0x00];
    input.extend_from_slice(&[0x05, 0x01, 0x00, 0x03, 0x02, 0xFF, 0xFE, 0x00, 0x50]);
    let t = drive(&config, &input, Ok(vec![]), Err(IoErrorKind::Other));
    assert_eq!(t.resolved, None);
    assert_eq!(&t.written[2..4], &[0x05, 0x08]);
    assert_eq!(t.outcome, Err(Error::Utf8));
}

#[test]
fn domain_resolution_error_is_general_failure() {
    let config = open_config();
    let mut input = vec![0x05, 0x01, 0x00, 0x05, 0x01, 0x00, 0x03];
    input.extend(koblas::encode_domain_target(b"nowhere.invalid", 80));
    let t = drive(&config, &input, Err(IoErrorKind::Other), Err(IoErrorKind::Other));
    assert_eq!(&t.written[2..], &[0x05, 0x01, 0x00, 0x01, 0, 0, 0, 0, 0, 0]);
}

#[test]
fn ipv6_connect_success_reply_is_22_bytes() {
    let config = open_config();
    let mut input = vec![0x05, 0x01, 0x00, 0x05, 0x01, 0x00, 0x04];
    let mut target = [0u8; 16];
    target[15] = 1;
    input.extend_from_slice(&target);
    input.extend_from_slice(&[0x1F, 0x90]);
    let mut local = [0u8; 16];
    local[0] = 0xFE;
    local[1] = 0x80;
    local[15] = 7;
    let bound = SocketAddress { ip: IpAddress::V6(local), port: 0x1234 };
    let t = drive(&config, &input, Ok(vec![]), Ok(bound));
    assert!(matches!(t.dialed[0].ip, IpAddress::V6(a) if a == target));
    assert_eq!(t.dialed[0].port, 8080);
    let reply = &t.written[2..];
    assert_eq!(reply.len(), 22);
    assert_eq!(&reply[..4], &[0x05, 0x00, 0x00, 0x04]);
    assert_eq!(&reply[4..20], &local);
    assert_eq!(&reply[20..], &[0x12, 0x34]);
}

#[test]
fn dial_failures_map_to_reply_codes() {
    let config = open_config();
    let mut input = vec![0x05, 0x01, 0x00];
    input.extend_from_slice(&[0x05, 0x01, 0x00, 0x01, 10, 0, 0, 1, 0, 22]);
    let cases = [
        (IoErrorKind::NetworkUnreachable, 0x03),
        (IoErrorKind::HostUnreachable, 0x04),
        (IoErrorKind::ConnectionRefused, 0x05),
        (IoErrorKind::Other, 0x01),
    ];
    for (kind, code) in cases {
        let t = drive(&config, &input, Ok(vec![]), Err(kind));
        assert_eq!(&t.written[2..], &[0x05, code, 0x00, 0x01, 0, 0, 0, 0, 0, 0]);
        assert_eq!(t.outcome, Err(Error::Io(kind)));
        assert!(!t.relayed);
    }
}

#[test]
fn greeting_wrong_version_closes_silently() {
    let config = open_config();
    let t = drive(&config, &[0x04, 0x01, 0x00], Ok(vec![]), Err(IoErrorKind::Other));
    assert!(t.written.is_empty());
    assert_eq!(t.outcome, Err(Error::InvalidVersion));
}

#[test]
fn greeting_without_methods_is_refused() {
    let config = open_config();
    let t = drive(&config, &[0x05, 0x00], Ok(vec![]), Err(IoErrorKind::Other));
    assert_eq!(t.written, vec![0x05, 0xFF]);
    assert_eq!(t.outcome, Err(Error::NoAcceptableMethod));
}

#[test]
fn request_wrong_version_gets_general_failure() {
    let config = open_config();
    let input = [0x05, 0x01, 0x00, 0x04, 0x01, 0x00, 0x01];
    let t = drive(&config, &input, Ok(vec![]), Err(IoErrorKind::Other));
    assert_eq!(&t.written[2..], &[0x05, 0x01, 0x00, 0x01, 0, 0, 0, 0, 0, 0]);
    assert_eq!(t.outcome, Err(Error::InvalidVersion));
}

#[test]
fn truncated_target_gets_general_failure() {
    let config = open_config();
    let input = [0x05, 0x01, 0x00, 0x05, 0x01, 0x00, 0x01, 127, 0];
    let t = drive(&config, &input, Ok(vec![]), Err(IoErrorKind::Other));
    assert_eq!(&t.written[2..], &[0x05, 0x01, 0x00, 0x01, 0, 0, 0, 0, 0, 0]);
    assert_eq!(t.outcome, Err(Error::Io(IoErrorKind::UnexpectedEof)));
}

#[test]
fn truncated_greeting_closes_silently() {
    let config = open_config();
    let t = drive(&config, &[0x05], Ok(vec![]), Err(IoErrorKind::Other));
    assert!(t.written.is_empty());
    assert_eq!(t.outcome, Err(Error::Io(IoErrorKind::UnexpectedEof)));
}

#[test]
fn short_chunk_counts_as_eof() {
    let config = open_config();
    let s = Session::new().step(&config, Event::Received(vec![0x05]));
    assert!(s.is_closed());
    assert!(matches!(s.action(), Action::Close(Err(Error::Io(IoErrorKind::UnexpectedEof)))));
}

#[test]
fn unexpected_event_closes() {
    let config = open_config();
    let s = Session::new().step(&config, Event::Sent);
    assert!(matches!(s.action(), Action::Close(Err(Error::Io(IoErrorKind::Other)))));
    let s = s.step(&config, Event::Received(vec![0x05, 0x01]));
    assert!(s.is_closed());
}

#[test]
fn one_reply_after_dial_whatever_follows() {
    let config = open_config();
    let mut s = Session::Dialing { candidates: vec![v4([10, 0, 0, 1], 80)] };
    let mut sends = 0;
    let events = vec![
        Event::Failed(IoErrorKind::ConnectionRefused),
        Event::Failed(IoErrorKind::Other),
        Event::Sent,
        Event::Received(vec![1, 2, 3]),
    ];
    for e in events {
        if let Action::Send(_) = s.action() {
            sends += 1;
        }
        s = s.step(&config, e);
    }
    if let Action::Send(_) = s.action() {
        sends += 1;
    }
    assert_eq!(sends, 1);
    assert!(s.is_closed());
}

#[test]
fn relay_starts_only_after_success_reply_is_written() {
    let config = open_config();
    let s = Session::Dialing { candidates: vec![v4([10, 0, 0, 1], 80)] };
    let s = s.step(&config, Event::Connected(v4([10, 0, 0, 2], 5000)));
    assert!(matches!(s.action(), Action::Send(_)));
    let failed = Session::RequestReply { bound: v4([0, 0, 0, 0], 0), outcome: Ok(()) }
        .step(&config, Event::Failed(IoErrorKind::Other));
    assert!(failed.is_closed());
    let s = s.step(&config, Event::Sent);
    assert!(matches!(s.action(), Action::Relay));
    let s = s.step(&config, Event::RelayFinished);
    assert!(matches!(s.action(), Action::Close(Ok(()))));
}

#[test]
fn domain_target_read_by_engine() {
    let config = open_config();
    let w = koblas::encode_domain_target(b"a.example", 443);
    let s = Session::DomainLen.step(&config, Event::Received(w[..1].to_vec()));
    let s = s.step(&config, Event::Received(w[1..].to_vec()));
    match s.action() {
        Action::Resolve(domain, port) => {
            assert_eq!(domain, b"a.example".to_vec());
            assert_eq!(port, 443);
        }
        _ => panic!("expected a resolution"),
    }
}

#[test]
fn closed_session_stays_closed() {
    let config = open_config();
    let s = Session::Closed { outcome: Ok(()) };
    let s = s.step(&config, Event::Failed(IoErrorKind::Other));
    assert!(matches!(s.action(), Action::Close(Ok(()))));
}
