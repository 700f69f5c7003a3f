use vstd::prelude::*;

verus! {

use vstd::utf8::{valid_utf8, decode_utf8};
use crate::codec::{b64_parse, b64_encode, b64_decode, bytes_to_string};
use crate::errors::DecryptionError;

broadcast use vstd::utf8::encode_utf8_valid_utf8, vstd::utf8::encode_utf8_decode_utf8;

/// Whether a string is well-formed fernet key material (32 url-safe base64
/// encoded bytes): a fixed property of the characters alone.
pub uninterp spec fn fernet_key_ok(key: Seq<char>) -> bool;

/// What fernet decryption of `token` under `key` yields when the clock
/// reads `now` (Unix seconds): the authenticated plaintext bytes, or
/// nothing. Fernet's clock-skew check computes `now + 60`, so only readings
/// up to `u64::MAX - 60` are ever passed to it; on those the outcome is a
/// fixed function of the three arguments, and an invalid key yields
/// nothing.
pub uninterp spec fn fernet_decrypt_at(key: Seq<char>, token: Seq<char>, now: u64) -> Option<
    Seq<u8>,
>;

/// Relies on fernet's `Fernet::generate_key`: the returned string is valid
/// key material.
#[verifier::external_body]
pub(crate) fn fernet_generate_key() -> (r: String)
    ensures
        fernet_key_ok(r@),
{
    fernet::Fernet::generate_key()
}

/// Relies on fernet's `Fernet::new` and `encrypt_at_time`: exactly the
/// valid keys encrypt, and whatever token comes back (the token embeds a
/// random nonce) decrypts to exactly the input bytes under the same key at
/// every clock reading from `now` up to `u64::MAX - 60` — beyond that,
/// fernet's own clock-skew addition overflows, so nothing is claimed.
#[verifier::external_body]
fn fernet_encrypt(key: &str, data: &Vec<u8>, now: u64) -> (r: Option<String>)
    ensures
        r is Some <==> fernet_key_ok(key@),
        r matches Some(c) ==> forall|t: u64|
            now <= t <= u64::MAX - 60 ==> fernet_decrypt_at(key@, c@, t) == Some(data@),
{
    Some(fernet::Fernet::new(key)?.encrypt_at_time(data, now))
}

/// Relies on fernet's `Fernet::new` and `decrypt_at_time` (without a
/// time-to-live): the result is exactly what fernet decryption yields for
/// these arguments. The clock bound keeps fernet's skew addition
/// (`now + 60`) from overflowing.
#[verifier::external_body]
fn fernet_decrypt(key: &str, token: &str, now: u64) -> (r: Option<Vec<u8>>)
    requires
        now <= u64::MAX - 60,
    ensures
        r matches Some(p) ==> fernet_decrypt_at(key@, token@, now) == Some(p@),
        r is None ==> fernet_decrypt_at(key@, token@, now) is None,
{
    fernet::Fernet::new(key)?.decrypt_at_time(token, None, now).ok()
}

/// What decrypting a stored field yields: base64-decode the stored string,
/// read the decoded bytes as a UTF-8 fernet token, decrypt it under the key,
/// and read the plaintext bytes as UTF-8. Each stage that can fail reports
/// its own error, never silently coerced.
pub open spec fn field_decryption(key: Seq<char>, stored: Seq<char>, now: u64) -> Result<
    Seq<char>,
    DecryptionError,
> {
    match b64_parse(stored) {
        Option::None => Err(DecryptionError::Encoding),
        Option::Some(decoded) => if !valid_utf8(decoded) {
            Err(DecryptionError::Utf8)
        } else {
            match fernet_decrypt_at(key, decode_utf8(decoded), now) {
                Option::None => Err(DecryptionError::Decryption),
                Option::Some(plain) => if !valid_utf8(plain) {
                    Err(DecryptionError::Utf8)
                } else {
                    Ok(decode_utf8(plain))
                },
            }
        },
    }
}

/// Encrypts one field value under an entity's key, for storage as a string
/// column: fernet-encrypt the UTF-8 bytes at clock reading `now`, then
/// base64-encode the token. Succeeds exactly on valid keys, and the stored
/// string decrypts back to the original value at every later clock reading
/// the cipher admits.
pub fn encrypt_field(key: &str, value: &str, now: u64) -> (r: Option<String>)
    ensures
        r is Some <==> fernet_key_ok(key@),
        r matches Some(c) ==> forall|t: u64|
            now <= t <= u64::MAX - 60 ==> field_decryption(key@, c@, t) == Ok::<
                Seq<char>,
                DecryptionError,
            >(value@),
{
    let bytes = value.as_bytes_vec();
    match fernet_encrypt(key, &bytes, now) {
        Option::None => Option::None,
        Option::Some(token) => {
            let token_bytes = token.as_str().as_bytes_vec();
            let stored = b64_encode(&token_bytes);
            proof {
                assert forall|t: u64| now <= t <= u64::MAX - 60 implies field_decryption(
                    key@,
                    stored@,
                    t,
                ) == Ok::<Seq<char>, DecryptionError>(value@) by {
                    assert(b64_parse(stored@) == Some(token_bytes@));
                    assert(token_bytes@ == vstd::utf8::encode_utf8(token@));
                    assert(fernet_decrypt_at(key@, token@, t) == Some(bytes@));
                    assert(bytes@ == vstd::utf8::encode_utf8(value@));
                }
            }
            Option::Some(stored)
        },
    }
}

/// Decrypts one stored field value under an entity's key at clock reading
/// `now` (bounded so fernet's skew arithmetic cannot overflow). Returns
/// exactly what `field_decryption` says: the plaintext, or the error of the
/// first stage that failed.
pub fn decrypt_field(key: &str, stored: &str, now: u64) -> (r: Result<String, DecryptionError>)
    requires
        now <= u64::MAX - 60,
    ensures
        match r {
            Ok(p) => field_decryption(key@, stored@, now) == Ok::<Seq<char>, DecryptionError>(p@),
            Err(e) => field_decryption(key@, stored@, now) == Err::<Seq<char>, DecryptionError>(e),
        },
{
    let decoded = match b64_decode(stored) {
        Option::None => {
            return Err(DecryptionError::Encoding);
        },
        Option::Some(d) => d,
    };
    let token = match bytes_to_string(decoded) {
        Option::None => {
            return Err(DecryptionError::Utf8);
        },
        Option::Some(t) => t,
    };
    let plain_bytes = match fernet_decrypt(key, token.as_str(), now) {
        Option::None => {
            return Err(DecryptionError::Decryption);
        },
        Option::Some(p) => p,
    };
    match bytes_to_string(plain_bytes) {
        Option::None => Err(DecryptionError::Utf8),
        Option::Some(p) => Ok(p),
    }
}

/// Law: a field encrypted under a key decrypts back to the original
/// plaintext under the same key, at any clock reading at or after the one
/// the field was encrypted at. (The premise is precisely what
/// `encrypt_field` ensures of every stored string it returns.)
pub proof fn lemma_cipher_round_trip(
    key: Seq<char>,
    stored: Seq<char>,
    plain: Seq<char>,
    t_enc: u64,
    t_dec: u64,
)
    requires
        forall|t: u64|
            t_enc <= t <= u64::MAX - 60 ==> field_decryption(key, stored, t) == Ok::<
                Seq<char>,
                DecryptionError,
            >(plain),
        t_enc <= t_dec <= u64::MAX - 60,
    ensures
        field_decryption(key, stored, t_dec) == Ok::<Seq<char>, DecryptionError>(plain),
{
}

} // verus!
