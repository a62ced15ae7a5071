//! Password-derived credentials: derivation of a hash from a secret and a
//! salt, and the check of a secret against a stored record.

use vstd::prelude::*;
use vstd::utf8::encode_utf8;
use vstd::utf8::encode_utf8_decode_utf8;
use crate::error::SseError;
use pbkdf2::password_hash::PasswordHasher;

verus! {

/// The iteration count that `hash_password` derives with.
pub const DEFAULT_ITERATIONS: u32 = 10_000;

/// The PBKDF2-HMAC-SHA256 output of 32 bytes for a password, a salt and a
/// number of rounds, in unpadded Base64.
pub uninterp spec fn pbkdf2_sha256_b64(password: Seq<u8>, salt: Seq<u8>, rounds: u32) -> Seq<char>;

/// The salts that the derivation accepts: in unpadded Base64 they take
/// between 4 and 64 characters.
pub open spec fn salt_is_usable(salt: Seq<u8>) -> bool {
    3 <= salt.len() <= 48
}

/// Calls `Pbkdf2::hash_password_customized` of the `pbkdf2` crate, with the
/// crate's default output length and with the salt in the form that the
/// crate wants it: `SaltString::b64_encode`, then `Salt::new` on the encoded
/// text. The contract claims that the call fails exactly on a salt whose
/// Base64 text is shorter than 4 or longer than 64 characters, and that on
/// success the hash is present and is the Base64 text of the
/// PBKDF2-HMAC-SHA256 output for these arguments. No argument makes it panic.
#[verifier::external_body]
fn pbkdf2_phc(password: &[u8], salt: &[u8], rounds: u32) -> (r: Result<
    Option<String>,
    pbkdf2::password_hash::Error,
>)
    ensures
        r is Ok <==> salt_is_usable(salt@),
        r matches Ok(h) ==> h matches Some(text) && text@ == pbkdf2_sha256_b64(
            password@,
            salt@,
            rounds,
        ),
{
    let encoded = pbkdf2::password_hash::SaltString::b64_encode(salt)?;
    let salt = pbkdf2::password_hash::Salt::new(encoded.as_str())?;
    let params = pbkdf2::Params { rounds, ..pbkdf2::Params::default() };
    let hash = pbkdf2::Pbkdf2.hash_password_customized(password, None, None, params, salt)?;
    Ok(hash.hash.map(|output| output.to_string()))
}

/// What `derive` returns for a secret, a salt and an iteration count.
pub open spec fn derive_spec(secret: Seq<char>, salt: Seq<char>, iterations: u32) -> Option<
    Seq<char>,
> {
    if iterations >= 1 && salt_is_usable(encode_utf8(salt)) {
        Some(pbkdf2_sha256_b64(encode_utf8(secret), encode_utf8(salt), iterations))
    } else {
        None
    }
}

/// Derives the hash of `secret` under `salt` with `iterations` rounds.
///
/// Fails with `CredentialError` when `iterations` is zero, and with
/// `Pbkdf2Error` when the salt cannot be encoded.
pub fn derive(secret: &str, salt: &str, iterations: u32) -> (r: Result<String, SseError>)
    ensures
        derive_post(r, secret@, salt@, iterations),
{
    if iterations == 0 {
        return Err(SseError::CredentialError);
    }
    match pbkdf2_phc(secret.as_bytes(), salt.as_bytes(), iterations) {
        Ok(Some(text)) => Ok(text),
        Ok(None) => Err(SseError::InternalError),
        Err(error) => Err(SseError::from(error)),
    }
}

/// Whether a result is one that `derive` may return for these arguments.
pub open spec fn derive_post(
    r: Result<String, SseError>,
    secret: Seq<char>,
    salt: Seq<char>,
    iterations: u32,
) -> bool {
    match derive_spec(secret, salt, iterations) {
        Some(hash) => r matches Ok(text) && text@ == hash,
        None => if iterations == 0 {
            r matches Err(SseError::CredentialError)
        } else {
            r matches Err(SseError::Pbkdf2Error { .. })
        },
    }
}

/// Compares two byte strings without stopping at the first difference: the
/// number of steps depends on the length of `fresh` alone.
pub fn constant_time_eq(fresh: &[u8], stored: &[u8]) -> (equal: bool)
    ensures
        equal == (fresh@ == stored@),
{
    let n = fresh.len();
    let m = stored.len();
    let mut diff: u8 = if n == m {
        0
    } else {
        1
    };
    let mut i: usize = 0;
    while i < n
        invariant
            i <= n,
            n == fresh@.len(),
            m == stored@.len(),
            diff == 0 <==> (n == m && forall|j: int| 0 <= j < i ==> fresh@[j] == stored@[j]),
        decreases n - i,
    {
        let x: u8 = fresh[i];
        let y: u8 = if i < m {
            stored[i]
        } else {
            x
        };
        let d: u8 = x ^ y;
        proof {
            assert(((x ^ y) == 0) <==> x == y) by (bit_vector);
            assert(((diff | d) == 0) <==> (diff == 0 && d == 0)) by (bit_vector);
        }
        diff = diff | d;
        i += 1;
    }
    proof {
        if diff == 0 {
            assert(fresh@ =~= stored@);
        }
    }
    diff == 0
}

/// A stored password verifier.
#[derive(Debug)]
pub struct CredentialRecord {
    /// The salt that the hash was derived under.
    pub salt: String,
    /// The derived hash, in unpadded Base64.
    pub derived_hash: String,
    /// The number of rounds of the derivation.
    pub iterations: u32,
}

/// A credential record as plain values.
pub struct CredentialRecordView {
    pub salt: Seq<char>,
    pub derived_hash: Seq<char>,
    pub iterations: u32,
}

impl View for CredentialRecord {
    type V = CredentialRecordView;

    open spec fn view(&self) -> CredentialRecordView {
        CredentialRecordView {
            salt: self.salt@,
            derived_hash: self.derived_hash@,
            iterations: self.iterations,
        }
    }
}

/// The record that `CredentialRecord::create` makes, where it makes one.
pub open spec fn record_spec(secret: Seq<char>, salt: Seq<char>, iterations: u32) -> Option<
    CredentialRecordView,
> {
    match derive_spec(secret, salt, iterations) {
        Some(hash) => Some(CredentialRecordView { salt, derived_hash: hash, iterations }),
        None => None,
    }
}

/// Whether `secret` matches `record`, where the record's parameters can be
/// derived with.
pub open spec fn verify_spec(secret: Seq<char>, record: CredentialRecordView) -> Option<bool> {
    match derive_spec(secret, record.salt, record.iterations) {
        Some(hash) => Some(hash == record.derived_hash),
        None => None,
    }
}

impl CredentialRecord {
    /// Derives the hash of `secret` and stores it with its parameters.
    pub fn create(secret: &str, salt: &str, iterations: u32) -> (r: Result<
        CredentialRecord,
        SseError,
    >)
        ensures
            match record_spec(secret@, salt@, iterations) {
                Some(record) => r matches Ok(made) && made@ == record,
                None => if iterations == 0 {
                    r matches Err(SseError::CredentialError)
                } else {
                    r matches Err(SseError::Pbkdf2Error { .. })
                },
            },
    {
        match derive(secret, salt, iterations) {
            Ok(derived_hash) => Ok(
                CredentialRecord { salt: String::from_str(salt), derived_hash, iterations },
            ),
            Err(error) => Err(error),
        }
    }
}

/// Derives the hash of `secret` with the record's salt and iteration count
/// and compares it with the stored hash in constant time.
///
/// A wrong secret is `Ok(false)`; an error means that the record itself
/// cannot be derived with.
pub fn verify(secret: &str, record: &CredentialRecord) -> (r: Result<bool, SseError>)
    ensures
        match verify_spec(secret@, record@) {
            Some(matches) => r matches Ok(b) && b == matches,
            None => if record.iterations == 0 {
                r matches Err(SseError::CredentialError)
            } else {
                r matches Err(SseError::Pbkdf2Error { .. })
            },
        },
{
    match derive(secret, record.salt.as_str(), record.iterations) {
        Ok(fresh) => {
            let equal = constant_time_eq(
                fresh.as_str().as_bytes(),
                record.derived_hash.as_str().as_bytes(),
            );
            proof {
                encode_utf8_decode_utf8(fresh@);
                encode_utf8_decode_utf8(record.derived_hash@);
            }
            Ok(equal)
        },
        Err(error) => Err(error),
    }
}

/// A record made from a secret accepts that secret.
pub proof fn verify_accepts_the_secret_of_a_record(
    secret: Seq<char>,
    salt: Seq<char>,
    iterations: u32,
)
    requires
        record_spec(secret, salt, iterations) is Some,
    ensures
        verify_spec(secret, record_spec(secret, salt, iterations)->0) == Some(true),
{
}

/// A record made from one secret accepts another exactly where both derive
/// to the same hash under the record's salt and iteration count.
pub proof fn verify_compares_derived_hashes(
    secret: Seq<char>,
    other: Seq<char>,
    salt: Seq<char>,
    iterations: u32,
)
    requires
        record_spec(secret, salt, iterations) is Some,
    ensures
        verify_spec(other, record_spec(secret, salt, iterations)->0) == Some(
            derive_spec(other, salt, iterations) == derive_spec(secret, salt, iterations),
        ),
{
}

/// Derivation is a function of its arguments: two results for the same
/// secret, salt and iteration count agree.
pub proof fn derive_is_deterministic(
    first: Result<String, SseError>,
    second: Result<String, SseError>,
    secret: Seq<char>,
    salt: Seq<char>,
    iterations: u32,
)
    requires
        derive_post(first, secret, salt, iterations),
        derive_post(second, secret, salt, iterations),
    ensures
        first is Ok <==> second is Ok,
        first is Ok ==> first->Ok_0@ == second->Ok_0@,
{
}

/// Password Based Key Derivation Function: derives key data from a secret
/// and a salt, with `DEFAULT_ITERATIONS` rounds.
pub fn hash_password<P: Into<String>, S: Into<String>>(secret: P, salt: S) -> (r: Result<
    String,
    SseError,
>)
    ensures
        exists|password: String, salt_text: String|
            call_ensures(<P as Into<String>>::into, (secret,), password) && call_ensures(
                <S as Into<String>>::into,
                (salt,),
                salt_text,
            ) && match derive_spec(password@, salt_text@, DEFAULT_ITERATIONS) {
                Some(hash) => r matches Ok(text) && text@ == hash,
                None => r matches Err(SseError::Pbkdf2Error { .. }),
            },
{
    let password: String = secret.into();
    let salt_text: String = salt.into();
    derive(password.as_str(), salt_text.as_str(), DEFAULT_ITERATIONS)
}

} // verus!
