use vstd::prelude::*;
use base64::Engine;

verus! {

/// What unpadded base64url encoding returns on the given bytes.
pub uninterp spec fn b64_of(b: Seq<u8>) -> Seq<u8>;

/// Holds for the bytes of the URL-safe base64 alphabet:
/// letters, digits, `-` and `_`.
pub open spec fn is_b64_byte(c: u8) -> bool {
    (65 <= c <= 90) || (97 <= c <= 122) || (48 <= c <= 57) || c == 45 || c == 95
}

/// Holds when every byte of `s` lies in the URL-safe base64 alphabet.
pub open spec fn b64_seq(s: Seq<u8>) -> bool {
    forall|i: int| 0 <= i < s.len() ==> is_b64_byte(#[trigger] s[i])
}

/// The bytes that `s` is the unpadded base64url encoding of, when it is one.
pub open spec fn b64_preimage(s: Seq<u8>) -> Option<Seq<u8>> {
    if exists|b: Seq<u8>| b64_of(b) == s {
        Some(choose|b: Seq<u8>| b64_of(b) == s)
    } else {
        None
    }
}

/// Relies on base64's `URL_SAFE_NO_PAD` engine: `Engine::encode` returns the
/// canonical unpadded base64url encoding of the input, an injective map whose
/// output stays inside the URL-safe alphabet.
#[verifier::external_body]
pub fn b64_encode(b: &Vec<u8>) -> (r: Vec<u8>)
    ensures
        r@ == b64_of(b@),
        b64_seq(r@),
        forall|b2: Seq<u8>| b64_of(b2) == r@ ==> b2 == b@,
{
    base64::engine::general_purpose::URL_SAFE_NO_PAD.encode(b).into_bytes()
}

/// Relies on base64's `URL_SAFE_NO_PAD` engine: `Engine::decode` accepts
/// exactly the canonical unpadded encodings (padding is refused and non-zero
/// trailing bits are an error) and then returns the unique preimage.
#[verifier::external_body]
pub fn b64_decode(s: &Vec<u8>) -> (r: Option<Vec<u8>>)
    ensures
        match r {
            Some(v) => b64_of(v@) == s@ && (forall|b2: Seq<u8>| b64_of(b2) == s@ ==> b2 == v@),
            None => forall|b2: Seq<u8>| b64_of(b2) != s@,
        },
{
    match base64::engine::general_purpose::URL_SAFE_NO_PAD.decode(s.as_slice()) {
        Ok(v) => Some(v),
        Err(_) => None,
    }
}

} // verus!
