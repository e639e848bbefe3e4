//! The subscription write path.
//!
//! A subscription request carries a URL-encoded form body with the two
//! required fields `email` and `name`.  Decoding happens before any other
//! work: an undecodable body never reaches the write.  A decoded form
//! becomes one fresh row (server-generated id and timestamp), and the
//! outcome of the write is mapped to the response.

use vstd::prelude::*;
use vstd::utf8::{valid_utf8, decode_utf8};
use crate::http::{bytes_eq, Response, STATUS_OK, STATUS_INTERNAL_ERROR};
use crate::urlencoded::{
    AMP,
    count_key,
    decode_ok,
    decode_spec,
    first_val,
    percent_decode,
    split_eq,
    split_on,
    split_pair,
    split_sep,
    subvec,
};

verus! {

/// The decoded body of a subscription request.
pub struct FormData {
    pub email: String,
    pub name: String,
}

/// The raw key/value pairs of a form body.
pub open spec fn raw_pairs(body: Seq<u8>) -> Seq<(Seq<u8>, Seq<u8>)> {
    split_sep(body, AMP).map_values(|p: Seq<u8>| split_pair(p))
}

/// Whether both halves of a raw pair decode.
pub open spec fn pair_decodes(kv: (Seq<u8>, Seq<u8>)) -> bool {
    decode_ok(kv.0) && decode_ok(kv.1)
}

/// Whether every pair of the body decodes.
pub open spec fn all_pairs_decode(body: Seq<u8>) -> bool {
    forall|i: int|
        0 <= i < raw_pairs(body).len() ==> pair_decodes(#[trigger] raw_pairs(body)[i])
}

/// The key/value pairs of the body after percent-decoding.
pub open spec fn decoded_pairs(body: Seq<u8>) -> Seq<(Seq<u8>, Seq<u8>)> {
    raw_pairs(body).map_values(|kv: (Seq<u8>, Seq<u8>)| (decode_spec(kv.0), decode_spec(kv.1)))
}

/// The bytes of the field name `email`.
pub open spec fn email_key() -> Seq<u8> {
    seq![101u8, 109u8, 97u8, 105u8, 108u8]
}

/// The bytes of the field name `name`.
pub open spec fn name_key() -> Seq<u8> {
    seq![110u8, 97u8, 109u8, 101u8]
}

/// The decoded `email` and `name` bytes of a form body: present exactly
/// when every pair decodes and each of the two required fields occurs
/// exactly once.
pub open spec fn form_bytes(body: Seq<u8>) -> Option<(Seq<u8>, Seq<u8>)> {
    match (first_val(decoded_pairs(body), email_key()), first_val(
        decoded_pairs(body),
        name_key(),
    )) {
        (Some(e), Some(n)) => if all_pairs_decode(body) && count_key(
            decoded_pairs(body),
            email_key(),
        ) == 1 && count_key(decoded_pairs(body), name_key()) == 1 {
            Some((e, n))
        } else {
            None
        },
        _ => None,
    }
}

/// The decoded form as character strings: present exactly when the body
/// decodes and both field values are valid UTF-8.
pub open spec fn form_view(body: Seq<u8>) -> Option<(Seq<char>, Seq<char>)> {
    match form_bytes(body) {
        Some(kv) => if valid_utf8(kv.0) && valid_utf8(kv.1) {
            Some((decode_utf8(kv.0), decode_utf8(kv.1)))
        } else {
            None
        },
        None => None,
    }
}

/// The bytes of the media type `application/x-www-form-urlencoded`.
pub open spec fn form_content_type() -> Seq<u8> {
    seq![
        97u8, 112u8, 112u8, 108u8, 105u8, 99u8, 97u8, 116u8, 105u8, 111u8, 110u8, 47u8, 120u8,
        45u8, 119u8, 119u8, 119u8, 45u8, 102u8, 111u8, 114u8, 109u8, 45u8, 117u8, 114u8, 108u8,
        101u8, 110u8, 99u8, 111u8, 100u8, 101u8, 100u8,
    ]
}

/// Whether a content-type header announces a URL-encoded form: the media
/// type itself, alone or followed by `;` and parameters.
pub open spec fn is_form_content_type(ct: Seq<u8>) -> bool {
    &&& ct.len() >= form_content_type().len()
    &&& ct.subrange(0, form_content_type().len() as int) == form_content_type()
    &&& (ct.len() == form_content_type().len() || ct[form_content_type().len() as int] == 0x3b)
}

/// The media type `application/x-www-form-urlencoded` as a vector.
fn form_content_type_vec() -> (r: Vec<u8>)
    ensures
        r@ == form_content_type(),
{
    let mut v: Vec<u8> = Vec::new();
    v.push(97);
    v.push(112);
    v.push(112);
    v.push(108);
    v.push(105);
    v.push(99);
    v.push(97);
    v.push(116);
    v.push(105);
    v.push(111);
    v.push(110);
    v.push(47);
    v.push(120);
    v.push(45);
    v.push(119);
    v.push(119);
    v.push(119);
    v.push(45);
    v.push(102);
    v.push(111);
    v.push(114);
    v.push(109);
    v.push(45);
    v.push(117);
    v.push(114);
    v.push(108);
    v.push(101);
    v.push(110);
    v.push(99);
    v.push(111);
    v.push(100);
    v.push(101);
    v.push(100);
    proof {
        assert(v@ =~= form_content_type());
    }
    v
}

/// Decides whether the header value announces a URL-encoded form.
pub fn accepts_form_content_type(ct: &Vec<u8>) -> (r: bool)
    ensures
        r == is_form_content_type(ct@),
{
    let expected = form_content_type_vec();
    if ct.len() < expected.len() {
        return false;
    }
    let head = subvec(ct, 0, expected.len());
    if !bytes_eq(&head, &expected) {
        return false;
    }
    if ct.len() == expected.len() {
        true
    } else {
        ct[expected.len()] == 0x3b
    }
}

/// Relies on `String::from_utf8`: it succeeds exactly on valid UTF-8 and
/// returns the string of the decoded characters.
#[verifier::external_body]
fn bytes_to_string(bytes: Vec<u8>) -> (r: Option<String>)
    ensures
        r is Some <==> valid_utf8(bytes@),
        r matches Some(s) ==> s@ == decode_utf8(bytes@),
{
    match String::from_utf8(bytes) {
        Ok(s) => Some(s),
        Err(_) => None,
    }
}

/// Whether `k` is the field name `email`.
fn is_email_key(k: &Vec<u8>) -> (r: bool)
    ensures
        r == (k@ == email_key()),
{
    if k.len() == 5 && k[0] == 101 && k[1] == 109 && k[2] == 97 && k[3] == 105 && k[4] == 108 {
        proof {
            assert(k@ =~= email_key());
        }
        true
    } else {
        false
    }
}

/// Whether `k` is the field name `name`.
fn is_name_key(k: &Vec<u8>) -> (r: bool)
    ensures
        r == (k@ == name_key()),
{
    if k.len() == 4 && k[0] == 110 && k[1] == 97 && k[2] == 109 && k[3] == 101 {
        proof {
            assert(k@ =~= name_key());
        }
        true
    } else {
        false
    }
}

/// Decodes a form body into the two required fields.
///
/// The result is present exactly when the body decodes: every pair is
/// well-formed URL-encoding, each of `email` and `name` occurs exactly
/// once, and both decoded values are valid UTF-8.  Pairs with other keys
/// are ignored.
pub fn parse_form(body: &Vec<u8>) -> (r: Option<FormData>)
    ensures
        r is Some <==> form_view(body@) is Some,
        r matches Some(f) ==> form_view(body@) == Some((f.email@, f.name@)),
{
    let pieces = split_on(body, AMP);
    let ghost raw = raw_pairs(body@);
    let ghost dec = decoded_pairs(body@);
    proof {
        assert(raw.len() == pieces@.len());
        assert(dec.len() == pieces@.len());
    }
    let mut email: Option<Vec<u8>> = None;
    let mut name: Option<Vec<u8>> = None;
    let mut email_dup: bool = false;
    let mut name_dup: bool = false;
    let mut i: usize = 0;
    proof {
        assert(dec.take(0) =~= Seq::<(Seq<u8>, Seq<u8>)>::empty());
    }
    while i < pieces.len()
        invariant
            i <= pieces.len(),
            pieces@.map_values(|v: Vec<u8>| v@) == split_sep(body@, AMP),
            raw == raw_pairs(body@),
            dec == decoded_pairs(body@),
            raw.len() == pieces@.len(),
            dec.len() == pieces@.len(),
            forall|k: int| 0 <= k < i ==> pair_decodes(#[trigger] raw[k]),
            email is Some <==> count_key(dec.take(i as int), email_key()) >= 1,
            email matches Some(v) ==> Some(v@) == first_val(dec.take(i as int), email_key()),
            email is None ==> first_val(dec.take(i as int), email_key()) is None,
            email_dup <==> count_key(dec.take(i as int), email_key()) >= 2,
            name is Some <==> count_key(dec.take(i as int), name_key()) >= 1,
            name matches Some(v) ==> Some(v@) == first_val(dec.take(i as int), name_key()),
            name is None ==> first_val(dec.take(i as int), name_key()) is None,
            name_dup <==> count_key(dec.take(i as int), name_key()) >= 2,
        decreases pieces.len() - i,
    {
        let kv = split_eq(&pieces[i]);
        proof {
            assert(pieces@.map_values(|v: Vec<u8>| v@)[i as int] == pieces@[i as int]@);
            assert(raw[i as int] == split_pair(pieces@[i as int]@));
        }
        let dk = percent_decode(&kv.0);
        let dv = percent_decode(&kv.1);
        if dk.is_none() || dv.is_none() {
            proof {
                assert(!pair_decodes(raw[i as int]));
                assert(!all_pairs_decode(body@));
            }
            return None;
        }
        let k = dk.unwrap();
        let v = dv.unwrap();
        proof {
            assert(dec[i as int] == (k@, v@));
            assert(dec.take(i as int + 1).drop_last() =~= dec.take(i as int));
            assert(dec.take(i as int + 1).last() == dec[i as int]);
        }
        if is_email_key(&k) {
            if email.is_some() {
                email_dup = true;
            } else {
                email = Some(v);
            }
        } else if is_name_key(&k) {
            if name.is_some() {
                name_dup = true;
            } else {
                name = Some(v);
            }
        }
        i = i + 1;
    }
    proof {
        assert(dec.take(i as int) =~= dec);
    }
    if email_dup || name_dup {
        return None;
    }
    match (email, name) {
        (Some(ev), Some(nv)) => {
            let ghost evs = ev@;
            let ghost nvs = nv@;
            proof {
                assert(count_key(dec, email_key()) == 1);
                assert(count_key(dec, name_key()) == 1);
            }
            match bytes_to_string(ev) {
                Some(es) => match bytes_to_string(nv) {
                    Some(ns) => Some(FormData { email: es, name: ns }),
                    None => None,
                },
                None => None,
            }
        },
        _ => None,
    }
}

/// The identifier type of a subscriber row, from the uuid crate.  The
/// library carries such a value through; nothing is proved about it.
#[verifier::external_type_specification]
#[verifier::external_body]
pub struct ExUuid(uuid::Uuid);

/// Relies on `uuid::Uuid::new_v4`: a freshly drawn random identifier.
/// The value is random, so nothing is promised of it.
#[verifier::external_body]
fn fresh_id() -> uuid::Uuid {
    uuid::Uuid::new_v4()
}

/// Relies on `chrono::Utc::now` and `DateTime::timestamp_micros`: the
/// current UTC time as microseconds since the Unix epoch.  The value
/// depends on the clock, so nothing is promised of it.
#[verifier::external_body]
fn now_utc_micros() -> i64 {
    chrono::Utc::now().timestamp_micros()
}

/// One row to insert: a fresh identifier, the subscriber's fields as
/// decoded, and the server-side write time as microseconds since the
/// Unix epoch, UTC.
pub struct NewSubscriber {
    pub id: uuid::Uuid,
    pub email: String,
    pub name: String,
    pub subscribed_at_micros: i64,
}

/// Builds the row for one decoded form.  The email and name are kept
/// exactly as decoded; the id and timestamp are generated here, never
/// taken from the client.
pub fn subscribe(form: FormData) -> (ns: NewSubscriber)
    ensures
        ns.email@ == form.email@,
        ns.name@ == form.name@,
{
    NewSubscriber {
        id: fresh_id(),
        email: form.email,
        name: form.name,
        subscribed_at_micros: now_utc_micros(),
    }
}

/// Maps the outcome of the insert to the response: a completed write
/// answers success with an empty body, a failed write answers a server
/// error with an empty body.  Nothing of the failure reaches the client.
pub fn subscribe_response(write_ok: bool) -> (r: Response)
    ensures
        r.status == if write_ok {
            STATUS_OK as int
        } else {
            STATUS_INTERNAL_ERROR as int
        },
        r.body@ == Seq::<u8>::empty(),
{
    if write_ok {
        Response::ok_empty()
    } else {
        Response::internal_error()
    }
}

} // verus!
