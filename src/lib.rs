//! A SOCKS5 proxy core: the RFC 1928 / RFC 1929 protocol engine as a pure
//! state machine, the admission controller and the configuration model.
//!
//! The engine performs no I/O. A driver asks a `Session` for its next
//! `Action`, carries it out against the client and upstream sockets, and
//! hands the outcome back as an `Event`.
pub mod admission;
pub mod auth;
pub mod codec;
pub mod config;
pub mod error;
pub mod net;
mod phc;
pub mod session;

pub use admission::{lemma_admission_balanced, AdmissionCounter};
pub use auth::authenticate;
pub use codec::{
    decode_reply, encode_domain_target, encode_reply, ipv4_target, ipv6_target,
    lemma_domain_target_round_trip, lemma_ports_big_endian, lemma_reply_round_trip, read_port,
    select_method, split_domain_payload,
};
pub use config::{lemma_lookup_unique, Config, DenyReason};
pub use error::{Error, IoErrorKind};
pub use net::{IpAddress, IpNetwork, SocketAddress};
pub use phc::phc_accepts;
pub use session::{
    lemma_domain_target_read, lemma_one_reply_per_request, lemma_relay_follows_success_reply,
    Action, Event, Session,
};
