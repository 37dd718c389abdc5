//! What the HTTP surface decides by itself: whether a request is authentic,
//! how an answer is signed, and what a refused request is told.

use vstd::prelude::*;
use vstd::string::StringSliceAdditionalSpecFns;
use ring::hmac;
use crate::request::copy_of;

verus! {

/// The header that carries the signature of a request or an answer.
pub const HMAC_HEADER: &'static str = "x-ycm-hmac";

/// The HMAC-SHA256 tag of the data under the key.
pub uninterp spec fn hmac_sha256_of(key: Seq<u8>, data: Seq<u8>) -> Seq<u8>;

/// The bytes that a base64 text stands for, if it is one.
pub uninterp spec fn base64_decoded_of(text: Seq<u8>) -> Option<Seq<u8>>;

/// The base64 text of the bytes.
pub uninterp spec fn base64_encoded_of(bytes: Seq<u8>) -> Seq<char>;

/// Makes a key with `ring::hmac::Key::new` for HMAC-SHA256 and signs the
/// data with `ring::hmac::sign`. Not proved: that the tag is
/// `hmac_sha256_of`.
#[verifier::external_body]
pub(crate) fn hmac_sha256(key: &[u8], data: &[u8]) -> (r: Vec<u8>)
    ensures
        r@ == hmac_sha256_of(key@, data@),
{
    hmac::sign(&hmac::Key::new(hmac::HMAC_SHA256, key), data).as_ref().to_vec()
}

/// Calls `base64::decode`. Not proved: that the bytes are
/// `base64_decoded_of`; a text that is no base64 gives `None`.
#[verifier::external_body]
pub(crate) fn base64_decode(text: &[u8]) -> (r: Option<Vec<u8>>)
    ensures
        r is Some == base64_decoded_of(text@) is Some,
        r is Some ==> r.unwrap()@ == base64_decoded_of(text@).unwrap(),
{
    base64::decode(text).ok()
}

/// Calls `base64::encode`. Not proved: that the text is
/// `base64_encoded_of`.
#[verifier::external_body]
pub(crate) fn base64_encode(bytes: &[u8]) -> (r: String)
    ensures
        r@ == base64_encoded_of(bytes@),
{
    base64::encode(bytes)
}

/// The signature that a request must carry: the tag of the tags of its
/// method, its path and its body, in this order, all under the secret.
pub open spec fn request_signature_of(
    secret: Seq<u8>,
    method: Seq<u8>,
    path: Seq<u8>,
    body: Seq<u8>,
) -> Seq<u8> {
    hmac_sha256_of(
        secret,
        hmac_sha256_of(secret, method) + hmac_sha256_of(secret, path) + hmac_sha256_of(
            secret,
            body,
        ),
    )
}

/// Appends the bytes of `src` to `dst`.
pub fn append_bytes(dst: &mut Vec<u8>, src: &Vec<u8>)
    ensures
        final(dst)@ == old(dst)@ + src@,
{
    let mut i: usize = 0;
    assert(dst@ =~= old(dst)@ + src@.take(0));
    while i < src.len()
        invariant
            i <= src.len(),
            dst@ == old(dst)@ + src@.take(i as int),
        decreases src.len() - i,
    {
        dst.push(src[i]);
        assert(src@.take(i + 1) =~= src@.take(i as int).push(src@[i as int]));
        i += 1;
    }
    assert(src@.take(src.len() as int) =~= src@);
}

/// Whether two vectors hold the same bytes.
pub fn same_bytes(a: &Vec<u8>, b: &Vec<u8>) -> (r: bool)
    ensures
        r == (a@ == b@),
{
    if a.len() != b.len() {
        return false;
    }
    let mut i: usize = 0;
    while i < a.len()
        invariant
            a.len() == b.len(),
            i <= a.len(),
            forall|j: int| 0 <= j < i ==> a@[j] == b@[j],
        decreases a.len() - i,
    {
        if a[i] != b[i] {
            return false;
        }
        i += 1;
    }
    assert(a@ =~= b@);
    true
}

/// The signature that a request with this method, path and body must carry.
pub fn request_signature(secret: &Vec<u8>, method: &str, path: &str, body: &Vec<u8>) -> (r: Vec<u8>)
    ensures
        r@ == request_signature_of(secret@, method.spec_bytes(), path.spec_bytes(), body@),
{
    let mut joined = hmac_sha256(secret.as_slice(), method.as_bytes());
    let path_tag = hmac_sha256(secret.as_slice(), path.as_bytes());
    let body_tag = hmac_sha256(secret.as_slice(), body.as_slice());
    append_bytes(&mut joined, &path_tag);
    append_bytes(&mut joined, &body_tag);
    hmac_sha256(secret.as_slice(), joined.as_slice())
}

/// Whether a request is authentic: its header is the base64 text of the
/// signature that it must carry.
pub fn is_authentic(secret: &Vec<u8>, header: &str, method: &str, path: &str, body: &Vec<u8>) -> (r:
    bool)
    ensures
        r == (base64_decoded_of(header.spec_bytes()) == Some(
            request_signature_of(secret@, method.spec_bytes(), path.spec_bytes(), body@),
        )),
{
    match base64_decode(header.as_bytes()) {
        Some(given) => {
            let expected = request_signature(secret, method, path, body);
            same_bytes(&given, &expected)
        },
        None => false,
    }
}

/// The signature of an answer: the base64 text of the tag of its body.
pub fn sign_body(secret: &Vec<u8>, body: &Vec<u8>) -> (r: String)
    ensures
        r@ == base64_encoded_of(hmac_sha256_of(secret@, body@)),
{
    let tag = hmac_sha256(secret.as_slice(), body.as_slice());
    base64_encode(tag.as_slice())
}

/// The secret that the settings carry as base64 text, if it is one.
pub fn decode_secret(hmac_secret: &str) -> (r: Option<Vec<u8>>)
    ensures
        r is Some == base64_decoded_of(hmac_secret.spec_bytes()) is Some,
        r is Some ==> r.unwrap()@ == base64_decoded_of(hmac_secret.spec_bytes()).unwrap(),
{
    base64_decode(hmac_secret.as_bytes())
}

/// What a refused request is told.
#[derive(Clone, Debug)]
pub struct ErrorMessage {
    pub code: u16,
    pub message: String,
}

/// The status and the message for a refused request. A request for
/// something that is not there gets 404, even if more is wrong with it; else
/// one whose body could not be read gets 400; else one with a method that
/// the path does not take gets 405; any other gets 500.
pub open spec fn rejection_of(not_found: bool, bad_body: bool, method_not_allowed: bool) -> (
    u16,
    Seq<char>,
) {
    if not_found {
        (404, "NOT_FOUND"@)
    } else if bad_body {
        (400, "BAD_REQUEST"@)
    } else if method_not_allowed {
        (405, "METHOD_NOT_ALLOWED"@)
    } else {
        (500, "INTERNAL_SERVER_ERROR"@)
    }
}

/// What a refused request is told.
pub fn rejection_message(not_found: bool, bad_body: bool, method_not_allowed: bool) -> (r:
    ErrorMessage)
    ensures
        (r.code, r.message@) == rejection_of(not_found, bad_body, method_not_allowed),
{
    if not_found {
        ErrorMessage { code: 404, message: copy_of("NOT_FOUND") }
    } else if bad_body {
        ErrorMessage { code: 400, message: copy_of("BAD_REQUEST") }
    } else if method_not_allowed {
        ErrorMessage { code: 405, message: copy_of("METHOD_NOT_ALLOWED") }
    } else {
        ErrorMessage { code: 500, message: copy_of("INTERNAL_SERVER_ERROR") }
    }
}

} // verus!
