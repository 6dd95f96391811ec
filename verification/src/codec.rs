use vstd::prelude::*;

verus! {

use vstd::utf8::{valid_utf8, decode_utf8, encode_utf8};
use crate::b64::{b64_of, b64_preimage, b64_seq, is_b64_byte, b64_encode, b64_decode};
use crate::framing::{
    SEP, sep_free, join_parts, split_parts, part_views, lemma_split_of_join, split_bytes,
    join_bytes,
};
use crate::mac::{mac_of, mac_sign, mac_verify};
use crate::stamp::{be_bytes, from_be_bytes, stamp_from_bytes, stamp_to_bytes, lemma_be_bytes_round_trip};
use crate::text::{string_from_utf8, str_bytes, bytes_eq};
use crate::claims::{Claims, ClaimsView, role_views};
use crate::SESSION_LIFETIME;

/// Why a presented token string was rejected: it does not frame or parse as a
/// token, or its signature does not verify against the key.
#[derive(Clone, Copy, Debug, PartialEq, Eq, Structural)]
pub enum TokenError {
    Malformed,
    BadSignature,
}

/// First token segment, naming the signing algorithm: the bytes of "HS256".
pub open spec fn header_bytes() -> Seq<u8> {
    seq![72u8, 83u8, 50u8, 53u8, 54u8]
}

fn header_vec() -> (r: Vec<u8>)
    ensures
        r@ == header_bytes(),
{
    let mut r: Vec<u8> = Vec::new();
    r.push(72);
    r.push(83);
    r.push(50);
    r.push(53);
    r.push(54);
    proof {
        assert(r@ =~= header_bytes());
    }
    r
}

/// The payload fields before encoding: the two stamps, the subject's UTF-8
/// bytes, then the UTF-8 bytes of each role.
pub open spec fn field_plain(
    subject: Seq<char>,
    roles: Seq<Seq<char>>,
    iat: u64,
    exp: u64,
) -> Seq<Seq<u8>> {
    seq![be_bytes(iat), be_bytes(exp), encode_utf8(subject)] + Seq::new(
        roles.len(),
        |i: int| encode_utf8(roles[i]),
    )
}

/// The payload fields as they stand in the payload, each base64url-encoded so
/// that every field is free of the separator.
pub open spec fn payload_fields(
    subject: Seq<char>,
    roles: Seq<Seq<char>>,
    iat: u64,
    exp: u64,
) -> Seq<Seq<u8>> {
    Seq::new(
        field_plain(subject, roles, iat, exp).len(),
        |i: int| b64_of(field_plain(subject, roles, iat, exp)[i]),
    )
}

/// The payload: the encoded fields joined with the separator.
pub open spec fn payload_bytes(
    subject: Seq<char>,
    roles: Seq<Seq<char>>,
    iat: u64,
    exp: u64,
) -> Seq<u8> {
    join_parts(payload_fields(subject, roles, iat, exp))
}

/// The signing input: the header and the encoded payload segment.
pub open spec fn signing_bytes(
    subject: Seq<char>,
    roles: Seq<Seq<char>>,
    iat: u64,
    exp: u64,
) -> Seq<u8> {
    header_bytes() + seq![SEP] + b64_of(payload_bytes(subject, roles, iat, exp))
}

/// The whole minted token: signing input, separator, encoded signature.
pub open spec fn token_bytes(
    key: Seq<u8>,
    subject: Seq<char>,
    roles: Seq<Seq<char>>,
    iat: u64,
    exp: u64,
) -> Seq<u8> {
    signing_bytes(subject, roles, iat, exp) + seq![SEP] + b64_of(
        mac_of(key, signing_bytes(subject, roles, iat, exp)),
    )
}

/// One payload field read back as a timestamp.
pub open spec fn parse_stamp(f: Seq<u8>) -> Option<u64> {
    match b64_preimage(f) {
        Option::None => Option::None,
        Option::Some(b) => if b.len() == 8 {
            Option::Some(from_be_bytes(b))
        } else {
            Option::None
        },
    }
}

/// One payload field read back as text.
pub open spec fn parse_text(f: Seq<u8>) -> Option<Seq<char>> {
    match b64_preimage(f) {
        Option::None => Option::None,
        Option::Some(b) => if valid_utf8(b) {
            Option::Some(decode_utf8(b))
        } else {
            Option::None
        },
    }
}

/// The claims read back from decoded payload bytes.
pub open spec fn parse_payload(pb: Seq<u8>) -> Result<ClaimsView, TokenError> {
    let fields = split_parts(pb);
    if fields.len() < 3 {
        Err(TokenError::Malformed)
    } else if parse_stamp(fields[0]) is None || parse_stamp(fields[1]) is None || parse_text(
        fields[2],
    ) is None || (exists|j: int| 3 <= j < fields.len() && #[trigger] parse_text(fields[j]) is None) {
        Err(TokenError::Malformed)
    } else {
        Ok(
            ClaimsView {
                issued_at: parse_stamp(fields[0])->Some_0,
                expires_at: parse_stamp(fields[1])->Some_0,
                subject: parse_text(fields[2])->Some_0,
                roles: Seq::new((fields.len() - 3) as nat, |j: int| parse_text(fields[j + 3])->Some_0),
            },
        )
    }
}

/// What decoding returns on any byte string presented as a token under the
/// given key: framing faults are malformed, then the signature is checked,
/// then the payload is read back.
pub open spec fn parse_token(t: Seq<u8>, key: Seq<u8>) -> Result<ClaimsView, TokenError> {
    let segs = split_parts(t);
    if segs.len() != 3 || segs[0] != header_bytes() {
        Err(TokenError::Malformed)
    } else {
        let signing = segs[0] + seq![SEP] + segs[1];
        if segs[2] != b64_of(mac_of(key, signing)) {
            Err(TokenError::BadSignature)
        } else {
            match b64_preimage(segs[1]) {
                Option::None => Err(TokenError::Malformed),
                Option::Some(pb) => parse_payload(pb),
            }
        }
    }
}

/// Reads one payload field back as a timestamp.
fn decode_stamp(f: &Vec<u8>) -> (r: Option<u64>)
    ensures
        r == parse_stamp(f@),
{
    match b64_decode(f) {
        Option::None => Option::None,
        Option::Some(b) => {
            if b.len() == 8 {
                Option::Some(stamp_from_bytes(&b))
            } else {
                Option::None
            }
        },
    }
}

/// Reads one payload field back as text.
fn decode_text(f: &Vec<u8>) -> (r: Option<String>)
    ensures
        match r {
            Option::Some(s) => parse_text(f@) == Option::Some(s@),
            Option::None => parse_text(f@) is None,
        },
{
    match b64_decode(f) {
        Option::None => Option::None,
        Option::Some(b) => string_from_utf8(b),
    }
}

/// Decodes and validates a presented token string against the signing key.
///
/// The signature is checked in constant time. Expiry is not checked here: it
/// is a separate predicate on the returned claims, so that callers may also
/// inspect an expired token.
#[verifier::loop_isolation(false)]
pub fn decode(token: &str, key: &Vec<u8>) -> (r: Result<Claims, TokenError>)
    ensures
        match r {
            Ok(c) => parse_token(encode_utf8(token@), key@) == Ok::<ClaimsView, TokenError>(c@),
            Err(e) => parse_token(encode_utf8(token@), key@) == Err::<ClaimsView, TokenError>(e),
        },
{
    let tb = str_bytes(token);
    let segs = split_bytes(&tb);
    let ghost sviews = split_parts(tb@);
    if segs.len() != 3 {
        return Err(TokenError::Malformed);
    }
    let hdr = header_vec();
    if !bytes_eq(&segs[0], &hdr) {
        return Err(TokenError::Malformed);
    }
    // rebuild the signing input: header, separator, payload segment
    let mut signing: Vec<u8> = Vec::new();
    append_bytes(&mut signing, &segs[0]);
    signing.push(SEP);
    append_bytes(&mut signing, &segs[1]);
    proof {
        assert(signing@ =~= sviews[0] + seq![SEP] + sviews[1]);
    }
    let sig = match b64_decode(&segs[2]) {
        Option::None => {
            proof {
                assert(sviews[2] != b64_of(mac_of(key@, signing@)));
            }
            return Err(TokenError::BadSignature);
        },
        Option::Some(v) => v,
    };
    if !mac_verify(key, &signing, &sig) {
        proof {
            assert(sviews[2] != b64_of(mac_of(key@, signing@)));
        }
        return Err(TokenError::BadSignature);
    }
    proof {
        assert(sviews[2] == b64_of(mac_of(key@, signing@)));
    }
    let pb = match b64_decode(&segs[1]) {
        Option::None => {
            proof {
                assert(b64_preimage(sviews[1]) is None);
            }
            return Err(TokenError::Malformed);
        },
        Option::Some(pb) => pb,
    };
    proof {
        assert(b64_preimage(sviews[1]) == Option::Some(pb@));
    }
    let fields = split_bytes(&pb);
    let ghost fviews = split_parts(pb@);
    if fields.len() < 3 {
        return Err(TokenError::Malformed);
    }
    let issued_at = match decode_stamp(&fields[0]) {
        Option::None => {
            return Err(TokenError::Malformed);
        },
        Option::Some(n) => n,
    };
    let expires_at = match decode_stamp(&fields[1]) {
        Option::None => {
            return Err(TokenError::Malformed);
        },
        Option::Some(n) => n,
    };
    let subject = match decode_text(&fields[2]) {
        Option::None => {
            return Err(TokenError::Malformed);
        },
        Option::Some(s) => s,
    };
    let mut roles: Vec<String> = Vec::new();
    let mut j: usize = 3;
    while j < fields.len()
        invariant
            3 <= j <= fields@.len(),
            part_views(fields@) == fviews,
            roles@.len() == j - 3,
            forall|j2: int|
                3 <= j2 < j ==> #[trigger] parse_text(fviews[j2]) == Option::Some(
                    roles@[j2 - 3]@,
                ),
        decreases fields@.len() - j,
    {
        let role = match decode_text(&fields[j]) {
            Option::None => {
                proof {
                    assert(3 <= j < fviews.len() && parse_text(fviews[j as int]) is None);
                    assert(exists|j2: int|
                        3 <= j2 < fviews.len() && #[trigger] parse_text(fviews[j2]) is None);
                }
                return Err(TokenError::Malformed);
            },
            Option::Some(s) => s,
        };
        roles.push(role);
        j = j + 1;
    }
    let c = Claims { issued_at, expires_at, subject, roles };
    proof {
        assert(forall|j2: int|
            3 <= j2 < fviews.len() ==> #[trigger] parse_text(fviews[j2]) is Some);
        assert(c@.roles =~~= Seq::new((fviews.len() - 3) as nat, |j: int| parse_text(fviews[j + 3])->Some_0));
        assert(parse_payload(pb@) == Ok::<ClaimsView, TokenError>(c@));
    }
    Ok(c)
}

/// A sequence over the base64url alphabet never holds the separator.
proof fn lemma_b64_sep_free(s: Seq<u8>)
    requires
        b64_seq(s),
    ensures
        sep_free(s),
{
    assert forall|i: int| 0 <= i < s.len() implies s[i] != SEP by {
        assert(is_b64_byte(s[i]));
    }
}

/// Every encoded payload field lies in the base64url alphabet.
pub open spec fn fields_encoded_ok(
    subject: Seq<char>,
    roles: Seq<Seq<char>>,
    iat: u64,
    exp: u64,
) -> bool {
    forall|i: int|
        0 <= i < payload_fields(subject, roles, iat, exp).len() ==> b64_seq(
            #[trigger] payload_fields(subject, roles, iat, exp)[i],
        )
}

/// Every encoded payload field determines its plain field: nothing else
/// encodes to it.
pub open spec fn fields_unique(
    subject: Seq<char>,
    roles: Seq<Seq<char>>,
    iat: u64,
    exp: u64,
) -> bool {
    forall|i: int, b2: Seq<u8>|
        #![trigger b64_of(b2), payload_fields(subject, roles, iat, exp)[i]]
        0 <= i < payload_fields(subject, roles, iat, exp).len() && b64_of(b2) == payload_fields(
            subject,
            roles,
            iat,
            exp,
        )[i] ==> b2 == field_plain(subject, roles, iat, exp)[i]
}

/// A freshly minted token reads back to exactly the claims it was minted
/// from. The hypotheses are the contracts of the encoding primitives,
/// instantiated at the minted values.
proof fn lemma_parse_of_mint(
    key: Seq<u8>,
    subject: Seq<char>,
    roles: Seq<Seq<char>>,
    iat: u64,
    exp: u64,
)
    requires
        b64_seq(b64_of(payload_bytes(subject, roles, iat, exp))),
        forall|b2: Seq<u8>|
            #[trigger] b64_of(b2) == b64_of(payload_bytes(subject, roles, iat, exp))
                ==> b2 == payload_bytes(subject, roles, iat, exp),
        b64_seq(b64_of(mac_of(key, signing_bytes(subject, roles, iat, exp)))),
        fields_encoded_ok(subject, roles, iat, exp),
        fields_unique(subject, roles, iat, exp),
    ensures
        parse_token(token_bytes(key, subject, roles, iat, exp), key) == Ok::<
            ClaimsView,
            TokenError,
        >(ClaimsView { issued_at: iat, expires_at: exp, subject, roles }),
{
    let pf = payload_fields(subject, roles, iat, exp);
    let fp = field_plain(subject, roles, iat, exp);
    let pay = payload_bytes(subject, roles, iat, exp);
    let payseg = b64_of(pay);
    let signing = signing_bytes(subject, roles, iat, exp);
    let sig = b64_of(mac_of(key, signing));
    let tok = token_bytes(key, subject, roles, iat, exp);

    // the token splits back into its three segments
    assert(sep_free(header_bytes()));
    lemma_b64_sep_free(payseg);
    lemma_b64_sep_free(sig);
    let segs3 = seq![header_bytes(), payseg, sig];
    assert(segs3.drop_first() =~~= seq![payseg, sig]);
    assert(seq![payseg, sig].drop_first() =~~= seq![sig]);
    assert(join_parts(seq![sig]) == sig);
    assert(join_parts(seq![payseg, sig]) == payseg + seq![SEP] + sig);
    assert(join_parts(segs3) == header_bytes() + seq![SEP] + (payseg + seq![SEP] + sig));
    assert(join_parts(segs3) =~= tok);
    assert(forall|i: int| 0 <= i < segs3.len() ==> sep_free(#[trigger] segs3[i]));
    lemma_split_of_join(segs3);
    assert(split_parts(tok) == segs3);
    assert(segs3[0] == header_bytes());
    assert(segs3[0] + seq![SEP] + segs3[1] =~= signing);
    assert(segs3[2] == b64_of(mac_of(key, signing)));

    // the payload segment decodes to the payload
    assert(b64_preimage(payseg) == Option::Some(pay)) by {
        assert(b64_of(pay) == payseg);
        let chosen = choose|b: Seq<u8>| b64_of(b) == payseg;
        assert(chosen == pay);
    }

    // the payload splits back into its fields
    assert(pf.len() == 3 + roles.len());
    assert forall|i: int| 0 <= i < pf.len() implies sep_free(#[trigger] pf[i]) by {
        lemma_b64_sep_free(pf[i]);
    }
    lemma_split_of_join(pf);
    assert(split_parts(pay) == pf);

    // the two stamps read back
    assert(parse_stamp(pf[0]) == Option::Some(iat)) by {
        assert(pf[0] == b64_of(fp[0]));
        assert(fp[0] == be_bytes(iat));
        let chosen = choose|b: Seq<u8>| b64_of(b) == pf[0];
        assert(b64_of(be_bytes(iat)) == pf[0]);
        assert(chosen == fp[0]);
        lemma_be_bytes_round_trip(iat);
    }
    assert(parse_stamp(pf[1]) == Option::Some(exp)) by {
        assert(pf[1] == b64_of(fp[1]));
        assert(fp[1] == be_bytes(exp));
        let chosen = choose|b: Seq<u8>| b64_of(b) == pf[1];
        assert(b64_of(be_bytes(exp)) == pf[1]);
        assert(chosen == fp[1]);
        lemma_be_bytes_round_trip(exp);
    }

    // the subject reads back
    assert(parse_text(pf[2]) == Option::Some(subject)) by {
        assert(pf[2] == b64_of(fp[2]));
        assert(fp[2] == encode_utf8(subject));
        let chosen = choose|b: Seq<u8>| b64_of(b) == pf[2];
        assert(b64_of(encode_utf8(subject)) == pf[2]);
        assert(chosen == fp[2]);
        vstd::utf8::encode_utf8_valid_utf8(subject);
        vstd::utf8::encode_utf8_decode_utf8(subject);
    }

    // each role reads back
    assert forall|j: int| 0 <= j < roles.len() implies parse_text(pf[3 + j]) == Option::Some(
        roles[j],
    ) by {
        assert(pf[3 + j] == b64_of(fp[3 + j]));
        assert(fp[3 + j] == encode_utf8(roles[j]));
        let chosen = choose|b: Seq<u8>| b64_of(b) == pf[3 + j];
        assert(b64_of(encode_utf8(roles[j])) == pf[3 + j]);
        assert(chosen == fp[3 + j]);
        vstd::utf8::encode_utf8_valid_utf8(roles[j]);
        vstd::utf8::encode_utf8_decode_utf8(roles[j]);
    }
    assert(!(exists|j: int| 3 <= j < pf.len() && #[trigger] parse_text(pf[j]) is None)) by {
        assert forall|j: int| 3 <= j < pf.len() implies !(#[trigger] parse_text(pf[j]) is None) by {
            assert(parse_text(pf[j]) == Option::Some(roles[j - 3]));
        }
    }
    assert(Seq::new((pf.len() - 3) as nat, |j: int| parse_text(pf[j + 3])->Some_0) =~~= roles);
}

/// Appends the bytes of `src` to `dst`.
fn append_bytes(dst: &mut Vec<u8>, src: &Vec<u8>)
    ensures
        final(dst)@ == old(dst)@ + src@,
{
    let mut i: usize = 0;
    while i < src.len()
        invariant
            0 <= i <= src@.len(),
            dst@ == old(dst)@ + src@.take(i as int),
        decreases src@.len() - i,
    {
        let ghost before = dst@;
        dst.push(src[i]);
        proof {
            assert(before + seq![src@[i as int]] =~= old(dst)@ + src@.take(i as int + 1));
        }
        i = i + 1;
    }
    proof {
        assert(old(dst)@ + src@.take(src@.len() as int) =~= old(dst)@ + src@);
    }
}

/// Mints a signed token for the given subject and role snapshot at time
/// `now`: claims are `{issued_at: now, expires_at: now + SESSION_LIFETIME,
/// subject, roles}`, and decoding the result under the same key gives exactly
/// those claims back.
#[verifier::loop_isolation(false)]
#[verifier::rlimit(30)]
pub fn encode(subject: &str, roles: &Vec<String>, now: u64, key: &Vec<u8>) -> (r: String)
    requires
        now + SESSION_LIFETIME <= u64::MAX,
    ensures
        encode_utf8(r@) == token_bytes(
            key@,
            subject@,
            role_views(roles@),
            now,
            (now + SESSION_LIFETIME) as u64,
        ),
        parse_token(encode_utf8(r@), key@) == Ok::<ClaimsView, TokenError>(
            ClaimsView {
                issued_at: now,
                expires_at: (now + SESSION_LIFETIME) as u64,
                subject: subject@,
                roles: role_views(roles@),
            },
        ),
{
    let exp = now + SESSION_LIFETIME;
    let ghost rv = role_views(roles@);
    let ghost fp = field_plain(subject@, rv, now, exp);
    let ghost pf = payload_fields(subject@, rv, now, exp);

    let mut fields: Vec<Vec<u8>> = Vec::new();
    fields.push(b64_encode(&stamp_to_bytes(now)));
    fields.push(b64_encode(&stamp_to_bytes(exp)));
    fields.push(b64_encode(&str_bytes(subject)));
    proof {
        assert(fp[0] == be_bytes(now));
        assert(fp[1] == be_bytes(exp));
        assert(fp[2] == encode_utf8(subject@));
        assert(part_views(fields@) =~~= pf.take(3));
    }
    let mut i: usize = 0;
    while i < roles.len()
        invariant
            0 <= i <= roles@.len(),
            fields@.len() == 3 + i,
            part_views(fields@) == pf.take(3 + i as int),
            forall|t: int| 0 <= t < 3 + i ==> b64_seq(#[trigger] pf[t]),
            forall|t: int, b2: Seq<u8>|
                #![trigger b64_of(b2), pf[t]]
                0 <= t < 3 + i && b64_of(b2) == pf[t] ==> b2 == fp[t],
        decreases roles@.len() - i,
    {
        let f = b64_encode(&str_bytes(roles[i].as_str()));
        proof {
            assert(rv[i as int] == roles@[i as int]@);
            assert(fp[3 + i as int] == encode_utf8(rv[i as int]));
            assert(f@ == pf[3 + i as int]);
        }
        fields.push(f);
        proof {
            assert(part_views(fields@) =~~= pf.take(3 + i as int + 1));
        }
        i = i + 1;
    }
    proof {
        assert(pf.take(3 + i as int) =~~= pf);
        assert(fields_encoded_ok(subject@, rv, now, exp));
        assert(fields_unique(subject@, rv, now, exp));
    }
    let payload = join_bytes(&fields);
    proof {
        assert(payload@ == payload_bytes(subject@, rv, now, exp));
    }
    let payseg = b64_encode(&payload);
    let mut signing = header_vec();
    signing.push(SEP);
    append_bytes(&mut signing, &payseg);
    proof {
        assert(signing@ =~= signing_bytes(subject@, rv, now, exp));
    }
    let tag = mac_sign(key, &signing);
    let sigseg = b64_encode(&tag);
    let mut token = signing;
    token.push(SEP);
    append_bytes(&mut token, &sigseg);
    proof {
        assert(token@ =~= token_bytes(key@, subject@, rv, now, exp));
        lemma_parse_of_mint(key@, subject@, rv, now, exp);
    }

    // every byte of the token is ASCII, so it is a string
    proof {
        assert forall|t: int| 0 <= t < token@.len() implies vstd::utf8::is_leading_byte_width_1(
            token@[t],
        ) by {
            let sg = signing_bytes(subject@, rv, now, exp);
            if t < sg.len() {
                if t < header_bytes().len() {
                } else if t == header_bytes().len() {
                } else {
                    assert(is_b64_byte(b64_of(payload_bytes(subject@, rv, now, exp))[t
                        - header_bytes().len() - 1]));
                }
            } else if t == sg.len() {
            } else {
                assert(is_b64_byte(b64_of(mac_of(key@, sg))[t - sg.len() - 1]));
            }
        }
        assert(token@.subrange(0, 0) =~= Seq::<u8>::empty());
        assert(vstd::utf8::partial_valid_utf8(token@, 0));
        vstd::utf8::partial_valid_utf8_extend_ascii_block(token@, 0, token@.len() as int);
        assert(token@.subrange(0, token@.len() as int) =~= token@);
        assert(valid_utf8(token@));
    }
    let ghost tokv = token@;
    let out = string_from_utf8(token);
    match out {
        Option::Some(s) => {
            proof {
                vstd::utf8::decode_utf8_encode_utf8(tokv);
            }
            s
        },
        Option::None => {
            proof {
                assert(false);
            }
            String::new()
        },
    }
}

/// Tampering with the signature segment of a token that decodes under `key`
/// (replacing it by any other separator-free segment) makes decoding fail
/// with `BadSignature`.
pub proof fn lemma_tampered_signature_rejected(t: Seq<u8>, key: Seq<u8>, sig2: Seq<u8>)
    requires
        parse_token(t, key) is Ok,
        sep_free(sig2),
        sig2 != split_parts(t)[2],
    ensures
        parse_token(split_parts(t)[0] + seq![SEP] + split_parts(t)[1] + seq![SEP] + sig2, key)
            == Err::<ClaimsView, TokenError>(TokenError::BadSignature),
{
    let segs = split_parts(t);
    crate::framing::lemma_split_parts_sep_free(t);
    assert(segs.len() == 3);
    assert(segs[0] == header_bytes());
    let signing = segs[0] + seq![SEP] + segs[1];
    assert(segs[2] == b64_of(mac_of(key, signing)));
    let t2 = segs[0] + seq![SEP] + segs[1] + seq![SEP] + sig2;
    let segs2 = seq![segs[0], segs[1], sig2];
    assert(segs2.drop_first() =~~= seq![segs[1], sig2]);
    assert(seq![segs[1], sig2].drop_first() =~~= seq![sig2]);
    assert(join_parts(seq![sig2]) == sig2);
    assert(join_parts(seq![segs[1], sig2]) == segs[1] + seq![SEP] + sig2);
    assert(join_parts(segs2) == segs[0] + seq![SEP] + (segs[1] + seq![SEP] + sig2));
    assert(join_parts(segs2) =~= t2);
    assert(forall|i: int| 0 <= i < segs2.len() ==> sep_free(#[trigger] segs2[i]));
    crate::framing::lemma_split_of_join(segs2);
    assert(split_parts(t2) == segs2);
    assert(segs2[0] + seq![SEP] + segs2[1] =~= signing);
    assert(segs2[2] != b64_of(mac_of(key, signing)));
}

} // verus!
