use vstd::prelude::*;

verus! {

use vstd::utf8::encode_utf8;
use crate::text::str_bytes;

/// Byte that separates the sections of a stored hash encoding.
pub const DOLLAR: u8 = 36;

/// What argon2rs's password check returns for a stored hash encoding and a
/// candidate password: a pure function of the two byte strings.
pub uninterp spec fn argon2_accepts(stored: Seq<u8>, candidate: Seq<u8>) -> bool;

pub open spec fn is_digit(b: u8) -> bool {
    48 <= b <= 57
}

/// Index of the first non-digit byte at or after `i`, or the length.
pub open spec fn digits_end(h: Seq<u8>, i: int) -> int
    recommends
        0 <= i <= h.len(),
    decreases h.len() - i,
    when 0 <= i <= h.len()
{
    if i >= h.len() {
        i
    } else if !is_digit(h[i]) {
        i
    } else {
        digits_end(h, i + 1)
    }
}

/// Index of the first section separator at or after `i`, or the length.
pub open spec fn dollar_end(h: Seq<u8>, i: int) -> int
    recommends
        0 <= i <= h.len(),
    decreases h.len() - i,
    when 0 <= i <= h.len()
{
    if i >= h.len() {
        i
    } else if h[i] == DOLLAR {
        i
    } else {
        dollar_end(h, i + 1)
    }
}

/// The bytes of `"$argon2"`.
pub open spec fn tag_bytes() -> Seq<u8> {
    seq![36u8, 97u8, 114u8, 103u8, 111u8, 110u8, 50u8]
}

/// The bytes of `"$m="`.
pub open spec fn mcost_bytes() -> Seq<u8> {
    seq![36u8, 109u8, 61u8]
}

/// The bytes of `",t="`.
pub open spec fn passes_bytes() -> Seq<u8> {
    seq![44u8, 116u8, 61u8]
}

/// The bytes of `",p="`.
pub open spec fn lanes_bytes() -> Seq<u8> {
    seq![44u8, 112u8, 61u8]
}

/// The shape of stored password hash encodings that the verifier hands to the
/// hashing library: `$argon2{d,i}$m=<digits>,t=<digits>,p=<digits>$<salt>$...`
/// without optional key or data fields, where the salt section holds at least
/// eleven characters (so at least eight salt bytes once decoded) and the whole
/// encoding is shorter than 2^32 bytes. Everything else fails verification
/// without being handed on.
pub open spec fn hash_wellformed(h: Seq<u8>) -> bool {
    let e1 = digits_end(h, 11);
    let e2 = digits_end(h, e1 + 3);
    let e3 = digits_end(h, e2 + 3);
    let s_end = dollar_end(h, e3 + 1);
    &&& h.len() <= 0xffffffff
    &&& h.len() >= 12
    &&& h.subrange(0, 7) == tag_bytes()
    &&& (h[7] == 100 || h[7] == 105)
    &&& h.subrange(8, 11) == mcost_bytes()
    &&& e1 > 11
    &&& e1 + 3 <= h.len()
    &&& h.subrange(e1, e1 + 3) == passes_bytes()
    &&& e2 > e1 + 3
    &&& e2 + 3 <= h.len()
    &&& h.subrange(e2, e2 + 3) == lanes_bytes()
    &&& e3 > e2 + 3
    &&& e3 < h.len()
    &&& h[e3] == DOLLAR
    &&& s_end < h.len()
    &&& s_end - (e3 + 1) >= 11
}

fn scan_digits(h: &Vec<u8>, start: usize) -> (r: usize)
    requires
        start <= h@.len(),
    ensures
        r == digits_end(h@, start as int),
        start <= r <= h@.len(),
{
    let mut i = start;
    while i < h.len() && 48 <= h[i] && h[i] <= 57
        invariant
            start <= i <= h@.len(),
            digits_end(h@, start as int) == digits_end(h@, i as int),
        decreases h@.len() - i,
    {
        i = i + 1;
    }
    i
}

fn scan_dollar(h: &Vec<u8>, start: usize) -> (r: usize)
    requires
        start <= h@.len(),
    ensures
        r == dollar_end(h@, start as int),
        start <= r <= h@.len(),
{
    let mut i = start;
    while i < h.len() && h[i] != DOLLAR
        invariant
            start <= i <= h@.len(),
            dollar_end(h@, start as int) == dollar_end(h@, i as int),
        decreases h@.len() - i,
    {
        i = i + 1;
    }
    i
}

/// Decides whether a stored hash encoding has the accepted shape.
pub fn hash_precheck(h: &Vec<u8>) -> (r: bool)
    ensures
        r == hash_wellformed(h@),
{
    if h.len() < 12 {
        return false;
    }
    if !((h.len() as u64) <= 0xffffffff) {
        return false;
    }
    if !(h[0] == 36 && h[1] == 97 && h[2] == 114 && h[3] == 103 && h[4] == 111 && h[5] == 110
        && h[6] == 50) {
        proof {
            assert(h@.subrange(0, 7) != tag_bytes());
        }
        return false;
    }
    proof {
        assert(h@.subrange(0, 7) =~= tag_bytes());
    }
    if !(h[7] == 100 || h[7] == 105) {
        return false;
    }
    if !(h[8] == 36 && h[9] == 109 && h[10] == 61) {
        proof {
            assert(h@.subrange(8, 11) != mcost_bytes());
        }
        return false;
    }
    proof {
        assert(h@.subrange(8, 11) =~= mcost_bytes());
    }
    let e1 = scan_digits(h, 11);
    if !(e1 > 11 && e1 <= h.len() - 3) {
        return false;
    }
    if !(h[e1] == 44 && h[e1 + 1] == 116 && h[e1 + 2] == 61) {
        proof {
            assert(h@.subrange(e1 as int, e1 as int + 3) != passes_bytes());
        }
        return false;
    }
    proof {
        assert(h@.subrange(e1 as int, e1 as int + 3) =~= passes_bytes());
    }
    let e2 = scan_digits(h, e1 + 3);
    if !(e2 > e1 + 3 && e2 <= h.len() - 3) {
        return false;
    }
    if !(h[e2] == 44 && h[e2 + 1] == 112 && h[e2 + 2] == 61) {
        proof {
            assert(h@.subrange(e2 as int, e2 as int + 3) != lanes_bytes());
        }
        return false;
    }
    proof {
        assert(h@.subrange(e2 as int, e2 as int + 3) =~= lanes_bytes());
    }
    let e3 = scan_digits(h, e2 + 3);
    if !(e3 > e2 + 3 && e3 < h.len()) {
        return false;
    }
    if !(h[e3] == DOLLAR) {
        return false;
    }
    let s_end = scan_dollar(h, e3 + 1);
    if !(s_end < h.len()) {
        return false;
    }
    if !(s_end - (e3 + 1) >= 11) {
        return false;
    }
    true
}

/// Relies on argon2rs's `Encoded::from_u8` and `Encoded::verify`: the stored
/// encoding is parsed (a parse or parameter fault fails verification) and the
/// candidate is hashed with the embedded salt and cost parameters and compared
/// in constant time. The result is a function of the two inputs alone. The
/// `requires` keeps out the inputs on which the library can abort: encodings
/// outside the shape of `hash_wellformed` (whose parse can index out of
/// range, or whose parsed salt can be shorter than the eight bytes the hash
/// step demands) and over-long candidates.
#[verifier::external_body]
fn argon2_check(stored: &Vec<u8>, candidate: &Vec<u8>) -> (r: bool)
    requires
        hash_wellformed(stored@),
        candidate@.len() <= 0xffffffff,
    ensures
        r == argon2_accepts(stored@, candidate@),
{
    match argon2rs::verifier::Encoded::from_u8(stored.as_slice()) {
        Ok(e) => e.verify(candidate.as_slice()),
        Err(_) => false,
    }
}

/// Whether the stored hash accepts the candidate password: the encoding has
/// the accepted shape, and the hashing library accepts the pair.
pub open spec fn password_accepted(stored: Seq<char>, candidate: Seq<char>) -> bool {
    &&& hash_wellformed(encode_utf8(stored))
    &&& encode_utf8(candidate).len() <= 0xffffffff
    &&& argon2_accepts(encode_utf8(stored), encode_utf8(candidate))
}

/// Checks a plaintext candidate against a stored salted hash encoding. The
/// salt and cost parameters embedded in the encoding are reused, never
/// regenerated; a malformed encoding fails verification instead of aborting.
pub fn verify_password(stored_hash: &str, candidate: &str) -> (r: bool)
    ensures
        r == password_accepted(stored_hash@, candidate@),
{
    let hb = str_bytes(stored_hash);
    let cb = str_bytes(candidate);
    if !hash_precheck(&hb) {
        return false;
    }
    if !((cb.len() as u64) <= 0xffffffff) {
        return false;
    }
    argon2_check(&hb, &cb)
}

} // verus!
