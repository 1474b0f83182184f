use vstd::prelude::*;

use crate::config::{Config, DenyReason};
use crate::net::IpAddress;

verus! {

/// The number of connections currently admitted and not yet released.
pub struct AdmissionCounter {
    active: u32,
}

impl View for AdmissionCounter {
    type V = nat;

    closed spec fn view(&self) -> nat {
        self.active as nat
    }
}

/// The count after a release: one less, never below zero.
pub open spec fn released(active: nat) -> nat {
    if active == 0 {
        0
    } else {
        (active - 1) as nat
    }
}

/// The count after an admission attempt that came out as `decision`.
pub open spec fn after_attempt(active: nat, decision: Result<(), DenyReason>) -> nat {
    if decision is Ok {
        active + 1
    } else {
        active
    }
}

impl AdmissionCounter {
    /// A counter with no connection admitted.
    pub fn new() -> (r: AdmissionCounter)
        ensures
            r@ == 0,
    {
        AdmissionCounter { active: 0 }
    }

    /// The number of connections admitted and not yet released.
    pub fn active(&self) -> (r: u32)
        ensures
            r as nat == self@,
    {
        self.active
    }

    /// Applies the admission rules to a connection from `ip`; on admission
    /// the count grows by one, on denial it stays.
    pub fn try_admit(&mut self, config: &Config, ip: &IpAddress) -> (r: Result<(), DenyReason>)
        ensures
            r == config.spec_admission(old(self)@, *ip),
            final(self)@ == after_attempt(old(self)@, r),
    {
        let r = config.admission(self.active, ip);
        if r.is_ok() {
            self.active = self.active + 1;
        }
        r
    }

    /// Ends an admitted connection.
    pub fn release(&mut self)
        ensures
            final(self)@ == released(old(self)@),
    {
        if self.active > 0 {
            self.active = self.active - 1;
        }
    }
}

/// Admitting a connection and releasing it at its end leaves the counter
/// where it was before the connection arrived; a denied connection never
/// moves it.
pub proof fn lemma_admission_balanced(config: &Config, active: nat, ip: IpAddress)
    ensures
        config.spec_admission(active, ip) is Ok ==> released(
            after_attempt(active, config.spec_admission(active, ip)),
        ) == active,
        config.spec_admission(active, ip) is Err ==> after_attempt(
            active,
            config.spec_admission(active, ip),
        ) == active,
{
}

} // verus!
