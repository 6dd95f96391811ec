use vstd::prelude::*;

verus! {

/// What HMAC-SHA256 returns for the given key and message.
pub uninterp spec fn mac_of(key: Seq<u8>, msg: Seq<u8>) -> Seq<u8>;

/// Relies on hmac's `Hmac<Sha256>`: keyed through `new_from_slice`, which
/// accepts a key of any length, fed the whole message with `update` and
/// finalized; the tag is the 32-byte HMAC-SHA256 of the message, a function
/// of key and message alone.
#[verifier::external_body]
pub fn mac_sign(key: &Vec<u8>, msg: &Vec<u8>) -> (r: Vec<u8>)
    ensures
        r@ == mac_of(key@, msg@),
        r@.len() == 32,
{
    let mut m = <hmac::Hmac<sha2::Sha256> as hmac::KeyInit>::new_from_slice(key.as_slice())
        .expect("HMAC accepts keys of any length");
    hmac::Mac::update(&mut m, msg.as_slice());
    hmac::Mac::finalize(m).into_bytes().to_vec()
}

/// Relies on hmac's `Mac::verify_slice`, which recomputes the tag over the
/// message and compares in constant time.
#[verifier::external_body]
pub fn mac_verify(key: &Vec<u8>, msg: &Vec<u8>, tag: &Vec<u8>) -> (r: bool)
    ensures
        r == (tag@ == mac_of(key@, msg@)),
{
    let mut m = <hmac::Hmac<sha2::Sha256> as hmac::KeyInit>::new_from_slice(key.as_slice())
        .expect("HMAC accepts keys of any length");
    hmac::Mac::update(&mut m, msg.as_slice());
    hmac::Mac::verify_slice(m, tag.as_slice()).is_ok()
}

} // verus!
