//! Signatures over update packages, verified against the crate's fixed
//! RSA public key. Verification never fails open: any error while decoding
//! or verifying counts as "invalid".

use vstd::prelude::*;
use vstd::string::StringSliceAdditionalSpecFns;

use crate::package::Package;

verus! {

/// An opaque verification token: the raw bytes of an RSA-SHA256 signature,
/// decoded from base64.
#[derive(Debug)]
pub struct Signature(pub Vec<u8>);

impl View for Signature {
    type V = Seq<u8>;

    open spec fn view(&self) -> Seq<u8> {
        self.0@
    }
}

/// What openssl's base64 decoding yields on a given string; `None` stands
/// for a rejected input.
pub uninterp spec fn base64_decoding(s: Seq<char>) -> Option<Seq<u8>>;

/// The decoder's hard input limit: a string whose UTF-8 encoding is longer
/// than a C `int` holds cannot be handed to it.
pub open spec fn base64_input_oversized(s: Seq<char>) -> bool {
    vstd::utf8::encode_utf8(s).len() > 0x7fffffff
}

/// Whether `sig` is a valid RSA-SHA256 signature over `msg` under the PEM
/// public key `key_pem`. Inputs on which the verifier reports an error (a
/// malformed key, a signature of the wrong shape) are not valid.
pub uninterp spec fn rsa_sha256_valid(key_pem: Seq<char>, msg: Seq<u8>, sig: Seq<u8>) -> bool;

/// The fixed PEM public key every signature is verified against.
pub open spec fn spec_verifying_key_pem() -> Seq<char> {
    "-----BEGIN PUBLIC KEY-----\nMIIBIjANBgkqhkiG9w0BAQEFAAOCAQ8AMIIBCgKCAQEAhjvWoLqlPm6ExSnz/kxg\nsocZrYVuUhsyHFSxZ78KGXXllC9rm5Rz11L1C/3WktOebWYhUYb9m7GzyuMKhJYt\n/lO30CmG9HGVZ/cKq8UObUbZW2Y4P6BvflXo+VPci2I7Q6SQ5nQhwjwxfI6+kTD+\nhigvD8TkzzrTzEuxopKkJJ4nXgTzEpMSg/GzynRqdDVUEwMoKZhQF09gS2cUIsOE\nffZ3L+TAubBecLJBNC/xPd6A1mEivsI6hiRnDNECzSLekxfgdEhedgYbWpPgpjTh\ncYaq25GHhUg4/v9BjGt0WS/jmSRTa+8yC+4BVtACXwBBJnQ3JaTmxYV46Q5/Lm4u\n6wIDAQAB\n-----END PUBLIC KEY-----\n"@
}

/// The fixed public key, as written in [`spec_verifying_key_pem`].
fn verifying_key_pem() -> (r: &'static str)
    ensures
        r@ == spec_verifying_key_pem(),
{
    "-----BEGIN PUBLIC KEY-----\nMIIBIjANBgkqhkiG9w0BAQEFAAOCAQ8AMIIBCgKCAQEAhjvWoLqlPm6ExSnz/kxg\nsocZrYVuUhsyHFSxZ78KGXXllC9rm5Rz11L1C/3WktOebWYhUYb9m7GzyuMKhJYt\n/lO30CmG9HGVZ/cKq8UObUbZW2Y4P6BvflXo+VPci2I7Q6SQ5nQhwjwxfI6+kTD+\nhigvD8TkzzrTzEuxopKkJJ4nXgTzEpMSg/GzynRqdDVUEwMoKZhQF09gS2cUIsOE\nffZ3L+TAubBecLJBNC/xPd6A1mEivsI6hiRnDNECzSLekxfgdEhedgYbWpPgpjTh\ncYaq25GHhUg4/v9BjGt0WS/jmSRTa+8yC+4BVtACXwBBJnQ3JaTmxYV46Q5/Lm4u\n6wIDAQAB\n-----END PUBLIC KEY-----\n"
}

/// Relies on `openssl::base64::decode_block`: the result depends on the
/// characters alone, and a string that is not valid base64 is rejected with
/// an error. The function panics on inputs longer than a C `int` holds, so
/// those are excluded.
#[verifier::external_body]
fn base64_decode(content: &str) -> (r: Option<Vec<u8>>)
    requires
        content.spec_bytes().len() <= 0x7fffffff,
    ensures
        match r {
            Some(b) => base64_decoding(content@) == Some(b@),
            None => base64_decoding(content@) is None,
        },
{
    match openssl::base64::decode_block(content) {
        Ok(b) => Some(b),
        Err(_) => None,
    }
}

/// Relies on openssl's RSA verification chain — `Rsa::public_key_from_pem`,
/// `PKey::from_rsa`, `Verifier::new` with `MessageDigest::sha256` and
/// `Verifier::verify_oneshot`: the outcome depends only on the key, message
/// and signature bytes, and every error along the chain is reported as
/// `false` (the verification fails closed).
#[verifier::external_body]
fn rsa_sha256_verify(key_pem: &str, msg: &[u8], sig: &[u8]) -> (r: bool)
    ensures
        r == rsa_sha256_valid(key_pem@, msg@, sig@),
{
    let rsa = match openssl::rsa::Rsa::public_key_from_pem(key_pem.as_bytes()) {
        Ok(k) => k,
        Err(_) => return false,
    };
    let key = match openssl::pkey::PKey::from_rsa(rsa) {
        Ok(k) => k,
        Err(_) => return false,
    };
    let ok = match openssl::sign::Verifier::new(openssl::hash::MessageDigest::sha256(), &key) {
        Ok(mut v) => v.verify_oneshot(sig, msg).unwrap_or(false),
        Err(_) => false,
    };
    ok
}

/// A base64 signature over the canonical sample payload that validates
/// under the crate's fixed key: it was produced by signing
/// [`crate::package::default_package_raw`] with the private counterpart of
/// that key.
pub open spec fn spec_valid_sample() -> Seq<char> {
    "W93G6sTrRwWcnOwEOf6SZ6EfE78YHg5Mcu+phcLZjYA+TxpxtHO1J8hcNoHIDqJw8VlV9T314vObUDM5X7zty01dP2PnZw6J4RMkSeWeups5c+DCqyvp6G6VEohWCyrkWeNQTk5iNUjVvCK0wjYZsYIg5p3H+22R8j63pXWzZzOADD+xXjVtnFh6vadhDGBBG/q2RczIzr68AYXms8Eu+FF9WEIeaHZiBRfHMKnsPPJh1V+aoN7K61f1FpfyCAlnTq1T8jgPJyVfCtjrTJH7ADH9iD9b1jvyr45bhW+kqB9U9eTvtj7odNOvVya40WvzvBgf0TOT+9UOo8ww5EdgDQ=="@
}

/// A base64 string that decodes to bytes which are not a valid signature
/// over the canonical sample payload.
pub open spec fn spec_invalid_sample() -> Seq<char> {
    "Hx6kv5dndxA/3qi9QAgXlaiyCrhKZLE7TLXVHVIU9XNq0qIyuRWCDaBDSXCbFKTgd26gBY6q30FHpxrDuf09UPnznluxv/0LbGbwyyskj4c5CZwQIGCcj+5a+ypV68G7hzFsaY3l7COvtGfQPnFT3B7JovqoLTpNgh/VtI0PHDo="@
}

impl Signature {
    /// The sample signature of [`spec_valid_sample`].
    pub fn valid_sample() -> (r: &'static str)
        ensures
            r@ == spec_valid_sample(),
    {
        "W93G6sTrRwWcnOwEOf6SZ6EfE78YHg5Mcu+phcLZjYA+TxpxtHO1J8hcNoHIDqJw8VlV9T314vObUDM5X7zty01dP2PnZw6J4RMkSeWeups5c+DCqyvp6G6VEohWCyrkWeNQTk5iNUjVvCK0wjYZsYIg5p3H+22R8j63pXWzZzOADD+xXjVtnFh6vadhDGBBG/q2RczIzr68AYXms8Eu+FF9WEIeaHZiBRfHMKnsPPJh1V+aoN7K61f1FpfyCAlnTq1T8jgPJyVfCtjrTJH7ADH9iD9b1jvyr45bhW+kqB9U9eTvtj7odNOvVya40WvzvBgf0TOT+9UOo8ww5EdgDQ=="
    }

    /// The sample signature of [`spec_invalid_sample`].
    pub fn invalid_sample() -> (r: &'static str)
        ensures
            r@ == spec_invalid_sample(),
    {
        "Hx6kv5dndxA/3qi9QAgXlaiyCrhKZLE7TLXVHVIU9XNq0qIyuRWCDaBDSXCbFKTgd26gBY6q30FHpxrDuf09UPnznluxv/0LbGbwyyskj4c5CZwQIGCcj+5a+ypV68G7hzFsaY3l7COvtGfQPnFT3B7JovqoLTpNgh/VtI0PHDo="
    }

    /// Build a signature from its base64 encoding; a string that does not
    /// decode (or that is too long for the decoder) yields `None`.
    pub fn from_str(content: &str) -> (r: Option<Signature>)
        ensures
            match r {
                Some(sig) => base64_decoding(content@) == Some(sig@),
                None => base64_decoding(content@) is None || base64_input_oversized(content@),
            },
    {
        if content.as_bytes().len() > 0x7fffffff {
            return None;
        }
        match base64_decode(content) {
            Some(b) => Some(Signature(b)),
            None => None,
        }
    }

    /// Whether this signature is a valid RSA-SHA256 signature over the
    /// package's raw bytes under the crate's fixed public key.
    pub fn validate(&self, pkg: &Package) -> (r: bool)
        ensures
            r == rsa_sha256_valid(spec_verifying_key_pem(), pkg@.raw, self@),
    {
        rsa_sha256_verify(verifying_key_pem(), pkg.raw.as_slice(), self.0.as_slice())
    }
}

} // verus!
