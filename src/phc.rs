use argon2::password_hash::Error as PhcError;
use argon2::PasswordVerifier;
use vstd::prelude::*;
use vstd::utf8::encode_utf8;

verus! {

/// Whether Argon2 accepts `password` against the PHC string `phc`: the
/// string parses, names an Argon2 variant, and the hash it records equals
/// the one derived from `password` with the salt and parameters it records.
pub uninterp spec fn phc_accepts(phc: Seq<char>, password: Seq<u8>) -> bool;

/// The smallest parallelism whose eightfold no longer fits in a `u32`.
pub const PARALLELISM_LIMIT: u64 = 0x2000_0000;

pub open spec fn is_digit(b: u8) -> bool {
    0x30 <= b <= 0x39
}

/// The decimal value of the run of ASCII digits in `b` that starts at `i`,
/// where `acc` is the value of the digits before it.
pub open spec fn digits_value(b: Seq<u8>, i: int, acc: nat) -> nat
    decreases b.len() - i,
{
    if 0 <= i < b.len() && is_digit(b[i]) {
        digits_value(b, i + 1, acc * 10 + (b[i] - 0x30) as nat)
    } else {
        acc
    }
}

/// At `i` a PHC parameter named `p` begins: `$p=` or `,p=`.
pub open spec fn parallelism_pair_at(b: Seq<u8>, i: int) -> bool {
    &&& 0 <= i
    &&& i + 2 < b.len()
    &&& b[i] == 0x24u8 || b[i] == 0x2cu8
    &&& b[i + 1] == 0x70u8
    &&& b[i + 2] == 0x3du8
}

/// Every `p` parameter in the bytes of a PHC string has a value below
/// `PARALLELISM_LIMIT`.
pub open spec fn parallelism_bounded(b: Seq<u8>) -> bool {
    forall|i: int| #[trigger]
        parallelism_pair_at(b, i) ==> digits_value(b, i + 3, 0) < PARALLELISM_LIMIT
}

/// The error of `argon2::password_hash`, carried out of `argon2_verify` and
/// never looked into.
#[verifier::external_type_specification]
#[verifier::external_body]
pub struct ExPhcError(PhcError);

/// Relies on `argon2::PasswordHash::new` to parse the PHC string and on
/// `PasswordVerifier::verify_password` of `Argon2::default()` to check the
/// password against it; the outcome depends on the two arguments alone.
/// Argon2 allocates the memory cost that the PHC string records before it
/// hashes, so a stored hash whose cost exceeds the machine aborts the
/// process rather than returning, and a large time cost makes it run long:
/// the user table comes from the operator. `argon2::Params::new` multiplies
/// the parallelism that the string records by eight in a `u32` before it
/// bounds it, which overflows from `PARALLELISM_LIMIT` on: such strings are
/// left out. The `p` value that Argon2 reads is the ASCII decimal after a
/// `$p=` or `,p=` in the string.
#[verifier::external_body]
pub(crate) fn argon2_verify(phc: &str, password: &[u8]) -> (r: Result<(), PhcError>)
    requires
        parallelism_bounded(encode_utf8(phc@)),
    ensures
        r is Ok <==> phc_accepts(phc@, password@),
{
    let hash = argon2::PasswordHash::new(phc)?;
    argon2::Argon2::default().verify_password(password, &hash)
}

} // verus!
