//! The small messages of the unary calls: what a request asks for, and the
//! bytes of the answers.

use crate::packet::{opt_bytes, opt_varint};
use crate::text::string_from_utf8;
use crate::wire::{
    decode_fields, encode_fields, field_views, fields_bytes, parse_fields, Field, FieldView, Value,
    ValueView, NESTING_LIMIT,
};
use vstd::prelude::*;
use vstd::utf8::{decode_utf8, encode_utf8, valid_utf8};

verus! {

/// The text that the fields of a message give to the field `number`: the
/// text of its last occurrence, the empty text where it does not occur,
/// and nothing where an occurrence is no length-delimited field or no
/// well-formed UTF-8. Fields with other numbers are passed over.
pub open spec fn text_field(fields: Seq<FieldView>, number: u32) -> Option<Seq<char>>
    decreases fields.len(),
{
    if fields.len() == 0 {
        Some(Seq::empty())
    } else {
        match text_field(fields.drop_last(), number) {
            None => None,
            Some(before) => if fields.last().number != number {
                Some(before)
            } else {
                match fields.last().value {
                    ValueView::Bytes(b) => if valid_utf8(b) {
                        Some(decode_utf8(b))
                    } else {
                        None
                    },
                    _ => None,
                }
            },
        }
    }
}

/// The text that the bytes of a request give to the field `number`.
pub open spec fn parse_text_request(b: Seq<u8>, number: u32) -> Option<Seq<char>> {
    match parse_fields(b, 0, NESTING_LIMIT as nat) {
        Some(fields) => text_field(fields, number),
        None => None,
    }
}

/// The number of the field of a request for a secret that holds an
/// annotation. It is read as a length and that many bytes whatever its
/// wire type.
pub const ANNOTATION_FIELD: u32 = 2;

/// How deep fields may be nested in an annotation, which stands one level
/// deep in a request.
pub const ANNOTATION_DEPTH: u32 = 99;

/// Whether bytes hold an annotation: fields in which the key, field 1, and
/// the value, field 2, are well-formed texts wherever they occur.
pub open spec fn is_annotation(b: Seq<u8>) -> bool {
    match parse_fields(b, 0, ANNOTATION_DEPTH as nat) {
        Some(fields) => text_field(fields, 1) is Some && text_field(fields, 2) is Some,
        None => false,
    }
}

/// Whether every annotation among the fields of a request is well formed.
pub open spec fn annotations_ok(fields: Seq<FieldView>) -> bool {
    forall|i: int|
        0 <= i < fields.len() && (#[trigger] fields[i]).number == ANNOTATION_FIELD ==> (
        fields[i].value matches ValueView::Bytes(b) && is_annotation(b))
}

/// The identifier that the bytes of a request for a secret ask for: the
/// text of field 1, where every annotation of the request is well formed.
pub open spec fn parse_secret_request(b: Seq<u8>) -> Option<Seq<char>> {
    match parse_fields(b, ANNOTATION_FIELD, NESTING_LIMIT as nat) {
        Some(fields) => if annotations_ok(fields) {
            text_field(fields, 1)
        } else {
            None
        },
        None => None,
    }
}

/// The bytes of an answer that holds a username as field 1 and a secret as
/// field 2.
pub open spec fn credentials_bytes(username: Seq<char>, secret: Seq<char>) -> Seq<u8> {
    fields_bytes(opt_bytes(1, encode_utf8(username)) + opt_bytes(2, encode_utf8(secret)))
}

/// The bytes of an answer that holds the bytes of a secret as field 1.
pub open spec fn secret_bytes(data: Seq<u8>) -> Seq<u8> {
    fields_bytes(opt_bytes(1, data))
}

/// The bytes of the answer to a health check: the serving status as
/// field 1.
pub open spec fn health_bytes() -> Seq<u8> {
    fields_bytes(opt_varint(1, 1))
}

/// Where reading the first `k` fields fails, reading all of them fails.
pub proof fn lemma_text_field_fails(fields: Seq<FieldView>, number: u32, k: int)
    requires
        0 <= k <= fields.len(),
        text_field(fields.take(k), number) is None,
    ensures
        text_field(fields, number) is None,
    decreases fields.len() - k,
{
    if k < fields.len() {
        assert(fields.take(k + 1).drop_last() =~= fields.take(k));
        lemma_text_field_fails(fields, number, k + 1);
    } else {
        assert(fields.take(k) =~= fields);
    }
}

/// The text that fields give to the field `number`.
pub fn text_of_fields(fields: &Vec<Field>, number: u32) -> (r: Option<String>)
    ensures
        match text_field(field_views(fields@), number) {
            Some(text) => r is Some && r.unwrap()@ == text,
            None => r is None,
        },
{
    let ghost all = field_views(fields@);
    let mut text = String::new();
    let mut i: usize = 0;
    assert(all.take(0) =~= Seq::<FieldView>::empty());
    while i < fields.len()
        invariant
            i <= fields.len(),
            all == field_views(fields@),
            text_field(all.take(i as int), number) == Some(text@),
        decreases fields.len() - i,
    {
        proof {
            assert(all.take(i + 1).drop_last() =~= all.take(i as int));
            assert(all.take(i + 1).last() == fields@[i as int]@);
        }
        if fields[i].number == number {
            let read = match &fields[i].value {
                Value::Bytes(b) => string_from_utf8(vstd::slice::slice_to_vec(b.as_slice())),
                _ => None,
            };
            match read {
                Some(t) => {
                    text = t;
                },
                None => {
                    proof {
                        lemma_text_field_fails(all, number, i + 1);
                    }
                    return None;
                },
            }
        }
        i += 1;
    }
    assert(all.take(i as int) =~= all);
    Some(text)
}

/// Reads the text of the field `number` from the bytes of a request.
pub fn decode_text_request(buf: &[u8], number: u32) -> (r: Option<String>)
    ensures
        match parse_text_request(buf@, number) {
            Some(text) => r is Some && r.unwrap()@ == text,
            None => r is None,
        },
{
    match decode_fields(buf, 0, NESTING_LIMIT) {
        Some(fields) => text_of_fields(&fields, number),
        None => None,
    }
}

/// Whether bytes hold an annotation.
pub fn check_annotation(buf: &[u8]) -> (r: bool)
    ensures
        r == is_annotation(buf@),
{
    match decode_fields(buf, 0, ANNOTATION_DEPTH) {
        Some(fields) => text_of_fields(&fields, 1).is_some() && text_of_fields(
            &fields,
            2,
        ).is_some(),
        None => false,
    }
}

/// Reads the identifier that a request for a secret asks for.
pub fn decode_secret_request(buf: &[u8]) -> (r: Option<String>)
    ensures
        match parse_secret_request(buf@) {
            Some(text) => r is Some && r.unwrap()@ == text,
            None => r is None,
        },
{
    let fields = match decode_fields(buf, ANNOTATION_FIELD, NESTING_LIMIT) {
        Some(f) => f,
        None => {
            return None;
        },
    };
    let ghost all = field_views(fields@);
    let mut i: usize = 0;
    while i < fields.len()
        invariant
            i <= fields.len(),
            all == field_views(fields@),
            parse_fields(buf@, ANNOTATION_FIELD, NESTING_LIMIT as nat) == Some(all),
            forall|j: int|
                0 <= j < i && (#[trigger] all[j]).number == ANNOTATION_FIELD ==> (
                all[j].value matches ValueView::Bytes(b) && is_annotation(b)),
        decreases fields.len() - i,
    {
        assert(all[i as int] == fields@[i as int]@);
        if fields[i].number == ANNOTATION_FIELD {
            let good = match &fields[i].value {
                Value::Bytes(b) => check_annotation(b.as_slice()),
                _ => false,
            };
            if !good {
                assert(!annotations_ok(all)) by {
                    assert(all[i as int].number == ANNOTATION_FIELD);
                }
                return None;
            }
        }
        i += 1;
    }
    text_of_fields(&fields, 1)
}

/// Appends a length-delimited field unless there are no bytes.
fn push_opt_bytes(out: &mut Vec<Field>, number: u32, b: Vec<u8>)
    ensures
        field_views(final(out)@) == field_views(old(out)@) + opt_bytes(number, b@),
{
    if b.len() != 0 {
        out.push(Field { number, value: Value::Bytes(b) });
    }
    assert(field_views(out@) =~= field_views(old(out)@) + opt_bytes(number, b@));
}

/// The bytes of an answer with a username and a secret.
pub fn encode_credentials(username: &str, secret: &str) -> (r: Vec<u8>)
    ensures
        r@ == credentials_bytes(username@, secret@),
{
    let mut fields: Vec<Field> = Vec::new();
    assert(field_views(fields@) =~= Seq::<FieldView>::empty());
    push_opt_bytes(&mut fields, 1, username.as_bytes_vec());
    push_opt_bytes(&mut fields, 2, secret.as_bytes_vec());
    assert(field_views(fields@) =~= opt_bytes(1, encode_utf8(username@)) + opt_bytes(
        2,
        encode_utf8(secret@),
    ));
    encode_fields(&fields)
}

/// The bytes of an answer with the bytes of a secret.
pub fn encode_secret(data: &[u8]) -> (r: Vec<u8>)
    ensures
        r@ == secret_bytes(data@),
{
    let mut fields: Vec<Field> = Vec::new();
    assert(field_views(fields@) =~= Seq::<FieldView>::empty());
    push_opt_bytes(&mut fields, 1, vstd::slice::slice_to_vec(data));
    assert(field_views(fields@) =~= opt_bytes(1, data@));
    encode_fields(&fields)
}

/// The bytes of the answer to a health check.
pub fn encode_health() -> (r: Vec<u8>)
    ensures
        r@ == health_bytes(),
{
    let mut fields: Vec<Field> = Vec::new();
    fields.push(Field { number: 1, value: Value::Varint(1) });
    assert(field_views(fields@) =~= opt_varint(1, 1));
    encode_fields(&fields)
}

} // verus!
