use vstd::prelude::*;
use vstd::utf8::{encode_utf8, valid_utf8};

use crate::config::{lookup_user, Config};
use crate::error::Error;
use crate::phc::{
    argon2_verify, digits_value, is_digit, parallelism_bounded, parallelism_pair_at, phc_accepts,
    PARALLELISM_LIMIT,
};

verus! {

/// Relies on `std::str::from_utf8`, which fails exactly on byte strings
/// that are not UTF-8.
#[verifier::external_body]
pub(crate) fn is_utf8(bytes: &[u8]) -> (r: bool)
    ensures
        r == valid_utf8(bytes@),
{
    std::str::from_utf8(bytes).is_ok()
}

proof fn lemma_digits_value_grows(b: Seq<u8>, i: int, acc: nat)
    ensures
        digits_value(b, i, acc) >= acc,
    decreases b.len() - i,
{
    if 0 <= i < b.len() && is_digit(b[i]) {
        lemma_digits_value_grows(b, i + 1, acc * 10 + (b[i] - 0x30) as nat);
    }
}

/// Whether the digits of `b` from `start` on read as less than
/// `PARALLELISM_LIMIT`.
fn digits_below_limit(b: &[u8], start: usize) -> (r: bool)
    requires
        start <= b@.len(),
    ensures
        r == (digits_value(b@, start as int, 0) < PARALLELISM_LIMIT),
{
    let mut acc: u64 = 0;
    let mut j: usize = start;
    while j < b.len() && 0x30 <= b[j] && b[j] <= 0x39
        invariant
            start <= j <= b@.len(),
            acc < PARALLELISM_LIMIT,
            digits_value(b@, start as int, 0) == digits_value(b@, j as int, acc as nat),
        decreases b@.len() - j,
    {
        acc = acc * 10 + (b[j] - 0x30) as u64;
        j = j + 1;
        if acc >= PARALLELISM_LIMIT {
            proof {
                lemma_digits_value_grows(b@, j as int, acc as nat);
            }
            return false;
        }
    }
    true
}

/// Whether every `p` parameter of the PHC string with bytes `b` is below
/// `PARALLELISM_LIMIT`.
fn parallelism_within_limit(b: &[u8]) -> (r: bool)
    ensures
        r == parallelism_bounded(b@),
{
    let mut i: usize = 0;
    while i < b.len() && b.len() - i > 2
        invariant
            i <= b@.len(),
            forall|j: int|
                0 <= j < i ==> (#[trigger] parallelism_pair_at(b@, j) ==> digits_value(
                    b@,
                    j + 3,
                    0,
                ) < PARALLELISM_LIMIT),
        decreases b@.len() - i,
    {
        if (b[i] == 0x24 || b[i] == 0x2c) && b[i + 1] == 0x70 && b[i + 2] == 0x3d {
            if !digits_below_limit(b, i + 3) {
                assert(parallelism_pair_at(b@, i as int));
                return false;
            }
        }
        i = i + 1;
    }
    assert forall|j: int| #[trigger] parallelism_pair_at(b@, j) implies digits_value(
        b@,
        j + 3,
        0,
    ) < PARALLELISM_LIMIT by {
        if j >= i {
            assert(!parallelism_pair_at(b@, j));
        }
    }
    true
}

/// The outcome of checking `username` and `password` against `config`:
/// both must be UTF-8, the user must exist, the stored hash must record a
/// parallelism that Argon2 can check without overflow, and Argon2 must
/// accept the password against it.
pub open spec fn auth_outcome(config: &Config, username: Seq<u8>, password: Seq<u8>) -> Result<(), Error> {
    if !valid_utf8(username) || !valid_utf8(password) {
        Err(Error::Utf8)
    } else {
        match lookup_user(config.users@, username) {
            None => Err(Error::UsernameNotFound),
            Some(phc) => if parallelism_bounded(encode_utf8(phc@)) && phc_accepts(phc@, password) {
                Ok(())
            } else {
                Err(Error::Password)
            },
        }
    }
}

/// Checks a username/password pair from the sub-negotiation.
pub fn authenticate(config: &Config, username: &[u8], password: &[u8]) -> (r: Result<(), Error>)
    ensures
        r == auth_outcome(config, username@, password@),
{
    if !is_utf8(username) || !is_utf8(password) {
        return Err(Error::Utf8);
    }
    match config.find_user(username) {
        None => Err(Error::UsernameNotFound),
        Some(phc) => {
            if !parallelism_within_limit(phc.as_str().as_bytes()) {
                return Err(Error::Password);
            }
            match argon2_verify(phc.as_str(), password) {
                Ok(()) => Ok(()),
                Err(_) => Err(Error::Password),
            }
        },
    }
}

} // verus!
