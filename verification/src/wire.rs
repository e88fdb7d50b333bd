//! The tag-length-value wire format that the messages of the session share:
//! base-128 integers, and fields made of a key and a value.
//!
//! Only integer and length-delimited fields carry data in this protocol.
//! Fixed-width fields and groups are read, so that a message can refuse
//! them where it knows the field and pass over them where it does not.

use vstd::prelude::*;

verus! {

/// The value of a field.
#[derive(Debug, Clone, PartialEq, Eq)]
pub enum Value {
    /// A base-128 integer.
    Varint(u64),
    /// A length-delimited run of bytes.
    Bytes(Vec<u8>),
    /// Eight bytes.
    Fixed64(Vec<u8>),
    /// Four bytes.
    Fixed32(Vec<u8>),
    /// A group; what it held is not kept.
    Group,
}

/// A field: its number and its value.
#[derive(Debug, Clone, PartialEq, Eq)]
pub struct Field {
    pub number: u32,
    pub value: Value,
}

/// The value of a field as plain values.
pub ghost enum ValueView {
    Varint(u64),
    Bytes(Seq<u8>),
    Fixed64(Seq<u8>),
    Fixed32(Seq<u8>),
    Group,
}

/// A field as plain values.
pub ghost struct FieldView {
    pub number: u32,
    pub value: ValueView,
}

impl View for Value {
    type V = ValueView;

    open spec fn view(&self) -> ValueView {
        match self {
            Value::Varint(v) => ValueView::Varint(*v),
            Value::Bytes(b) => ValueView::Bytes(b@),
            Value::Fixed64(b) => ValueView::Fixed64(b@),
            Value::Fixed32(b) => ValueView::Fixed32(b@),
            Value::Group => ValueView::Group,
        }
    }
}

impl View for Field {
    type V = FieldView;

    open spec fn view(&self) -> FieldView {
        FieldView { number: self.number, value: self.value@ }
    }
}

/// The fields of a list as plain values.
pub open spec fn field_views(fields: Seq<Field>) -> Seq<FieldView> {
    fields.map_values(|f: Field| f@)
}

/// Wire type of a base-128 integer.
pub const WIRE_VARINT: u8 = 0;

/// Wire type of eight bytes.
pub const WIRE_FIXED64: u8 = 1;

/// Wire type of a length followed by that many bytes.
pub const WIRE_BYTES: u8 = 2;

/// Wire type of the start of a group.
pub const WIRE_START_GROUP: u8 = 3;

/// Wire type of the end of a group.
pub const WIRE_END_GROUP: u8 = 4;

/// Wire type of four bytes.
pub const WIRE_FIXED32: u8 = 5;

/// How deep fields may be nested in a message that is read on its own.
pub const NESTING_LIMIT: u32 = 100;

/// The largest field number.
pub const MAX_FIELD_NUMBER: u32 = 0x1fffffff;

/// The base-128 encoding of a number: seven bits to a byte, the low ones
/// first, the top bit set on every byte but the last.
pub open spec fn varint_bytes(v: nat) -> Seq<u8>
    decreases v,
{
    if v < 128 {
        seq![v as u8]
    } else {
        seq![(v % 128 + 128) as u8] + varint_bytes(v / 128)
    }
}

/// Reads a base-128 number of at most `budget` bytes from the front of
/// `b`: the number and how many bytes it took.
pub open spec fn parse_varint(b: Seq<u8>, budget: nat) -> Option<(nat, nat)>
    decreases budget,
{
    if budget == 0 || b.len() == 0 {
        None
    } else if b[0] < 128 {
        Some((b[0] as nat, 1))
    } else {
        match parse_varint(b.skip(1), (budget - 1) as nat) {
            Some((v, n)) => Some(((b[0] - 128 + 128 * v) as nat, n + 1)),
            None => None,
        }
    }
}

/// Reads a number that fits 64 bits from the front of `b`, from at most
/// ten bytes.
pub open spec fn parse_u64(b: Seq<u8>) -> Option<(u64, nat)> {
    match parse_varint(b, 10) {
        Some((v, n)) => if v <= u64::MAX {
            Some((v as u64, n))
        } else {
            None
        },
        None => None,
    }
}

/// The key of a field: its number and the wire type of its value.
pub open spec fn key_of(number: u32, wire_type: u8) -> nat {
    (number * 8 + wire_type) as nat
}

/// The bytes of one field. A group is written empty.
pub open spec fn field_bytes(f: FieldView) -> Seq<u8> {
    match f.value {
        ValueView::Varint(v) => varint_bytes(key_of(f.number, WIRE_VARINT)) + varint_bytes(
            v as nat,
        ),
        ValueView::Bytes(b) => varint_bytes(key_of(f.number, WIRE_BYTES)) + varint_bytes(b.len())
            + b,
        ValueView::Fixed64(b) => varint_bytes(key_of(f.number, WIRE_FIXED64)) + b,
        ValueView::Fixed32(b) => varint_bytes(key_of(f.number, WIRE_FIXED32)) + b,
        ValueView::Group => varint_bytes(key_of(f.number, WIRE_START_GROUP)) + varint_bytes(
            key_of(f.number, WIRE_END_GROUP),
        ),
    }
}

/// The bytes of a list of fields, one after the other.
pub open spec fn fields_bytes(fields: Seq<FieldView>) -> Seq<u8>
    decreases fields.len(),
{
    if fields.len() == 0 {
        Seq::empty()
    } else {
        field_bytes(fields[0]) + fields_bytes(fields.skip(1))
    }
}

/// A key read from the front of a buffer: the field number, the wire
/// type, and how many bytes the key took.
pub ghost struct KeyView {
    pub number: u32,
    pub wire_type: u8,
    pub len: nat,
}

/// Reads a key from the front of `b`. Fails on a key that is not a 32-bit
/// number, on a wire type above five, and on the field number zero.
pub open spec fn parse_key(b: Seq<u8>) -> Option<KeyView> {
    match parse_u64(b) {
        Some((key, n)) => if key > u32::MAX || key % 8 > 5 || key / 8 == 0 {
            None
        } else {
            Some(KeyView { number: (key / 8) as u32, wire_type: (key % 8) as u8, len: n })
        },
        None => None,
    }
}

/// Reads a length and that many bytes from the front of `b`: the bytes,
/// and how many bytes length and bytes took together.
pub open spec fn parse_delimited(b: Seq<u8>) -> Option<(Seq<u8>, nat)> {
    match parse_u64(b) {
        Some((len, m)) => if len <= b.len() - m {
            Some((b.subrange(m as int, m + len), (m + len) as nat))
        } else {
            None
        },
        None => None,
    }
}

/// How many bytes the value of a field that is passed over takes, with
/// `depth` levels of nesting left. Fails where no level is left, where the
/// value ends behind the buffer, and on the end of a group that was not
/// begun.
pub open spec fn skip_value(b: Seq<u8>, wire_type: u8, number: u32, depth: nat) -> Option<nat>
    decreases depth, b.len(), 1nat,
{
    if depth == 0 {
        None
    } else if wire_type == WIRE_VARINT {
        match parse_u64(b) {
            Some((v, n)) => Some(n),
            None => None,
        }
    } else if wire_type == WIRE_FIXED64 {
        if b.len() >= 8 {
            Some(8)
        } else {
            None
        }
    } else if wire_type == WIRE_FIXED32 {
        if b.len() >= 4 {
            Some(4)
        } else {
            None
        }
    } else if wire_type == WIRE_BYTES {
        match parse_delimited(b) {
            Some((bytes, n)) => Some(n),
            None => None,
        }
    } else if wire_type == WIRE_START_GROUP {
        skip_group(b, number, depth)
    } else {
        None
    }
}

/// How many bytes the rest of a group takes, up to and with the key that
/// ends it: fields that are passed over, one level deeper, and then the
/// end of a group with the number of the group.
pub open spec fn skip_group(b: Seq<u8>, number: u32, depth: nat) -> Option<nat>
    decreases depth, b.len(), 0nat,
{
    if depth == 0 {
        None
    } else {
        match parse_key(b) {
            None => None,
            Some(key) => if key.wire_type == WIRE_END_GROUP {
                if key.number == number {
                    Some(key.len)
                } else {
                    None
                }
            } else if 0 < key.len <= b.len() {
                match skip_value(
                    b.skip(key.len as int),
                    key.wire_type,
                    key.number,
                    (depth - 1) as nat,
                ) {
                    None => None,
                    Some(m) => if m <= b.len() - key.len {
                        match skip_group(b.skip((key.len + m) as int), number, depth) {
                            Some(rest) => Some(key.len + m + rest),
                            None => None,
                        }
                    } else {
                        None
                    },
                }
            } else {
                None
            },
        }
    }
}

/// Reads one field from the front of `b`: the field and how many bytes it
/// took. The field with the number `forced` is read as a length and that
/// many bytes whatever its wire type; `forced` is zero where there is no
/// such field. Fails on a malformed key, on a value that ends behind the
/// buffer, on a group that is nested deeper than `depth` or not ended, and
/// on the end of a group that was not begun.
pub open spec fn parse_step(b: Seq<u8>, forced: u32, depth: nat) -> Option<(FieldView, nat)> {
    match parse_key(b) {
        None => None,
        Some(key) => {
            let rest = b.skip(key.len as int);
            if key.number == forced || key.wire_type == WIRE_BYTES {
                match parse_delimited(rest) {
                    Some((bytes, n)) => Some(
                        (
                            FieldView { number: key.number, value: ValueView::Bytes(bytes) },
                            key.len + n,
                        ),
                    ),
                    None => None,
                }
            } else if key.wire_type == WIRE_VARINT {
                match parse_u64(rest) {
                    Some((v, n)) => Some(
                        (
                            FieldView { number: key.number, value: ValueView::Varint(v) },
                            key.len + n,
                        ),
                    ),
                    None => None,
                }
            } else if key.wire_type == WIRE_FIXED64 {
                if rest.len() >= 8 {
                    Some(
                        (
                            FieldView {
                                number: key.number,
                                value: ValueView::Fixed64(rest.subrange(0, 8)),
                            },
                            key.len + 8,
                        ),
                    )
                } else {
                    None
                }
            } else if key.wire_type == WIRE_FIXED32 {
                if rest.len() >= 4 {
                    Some(
                        (
                            FieldView {
                                number: key.number,
                                value: ValueView::Fixed32(rest.subrange(0, 4)),
                            },
                            key.len + 4,
                        ),
                    )
                } else {
                    None
                }
            } else if key.wire_type == WIRE_START_GROUP {
                match skip_group(rest, key.number, depth) {
                    Some(n) => Some(
                        (FieldView { number: key.number, value: ValueView::Group }, key.len + n),
                    ),
                    None => None,
                }
            } else {
                None
            }
        },
    }
}

/// Reads the fields of a message in order. Fails where one field fails.
pub open spec fn parse_fields(b: Seq<u8>, forced: u32, depth: nat) -> Option<Seq<FieldView>>
    decreases b.len(),
{
    if b.len() == 0 {
        Some(Seq::empty())
    } else {
        match parse_step(b, forced, depth) {
            Some((f, n)) => if 0 < n <= b.len() {
                match parse_fields(b.skip(n as int), forced, depth) {
                    Some(rest) => Some(seq![f] + rest),
                    None => None,
                }
            } else {
                None
            },
            None => None,
        }
    }
}

/// 128 to the power of `k`.
pub open spec fn pow128(k: nat) -> nat
    decreases k,
{
    if k == 0 {
        1
    } else {
        128 * pow128((k - 1) as nat)
    }
}

/// The powers of 128 up to the tenth.
pub proof fn lemma_pow128_values()
    ensures
        pow128(0) == 1,
        pow128(1) == 0x80,
        pow128(2) == 0x4000,
        pow128(3) == 0x200000,
        pow128(4) == 0x10000000,
        pow128(5) == 0x800000000,
        pow128(6) == 0x40000000000,
        pow128(7) == 0x2000000000000,
        pow128(8) == 0x100000000000000,
        pow128(9) == 0x8000000000000000,
        pow128(10) == 0x400000000000000000,
{
    reveal_with_fuel(pow128, 11);
}

/// A number read from at most `budget` bytes is below 128 to the power of
/// `budget`, and took between one and `budget` bytes, all within `b`.
pub proof fn lemma_parse_varint_bounds(b: Seq<u8>, budget: nat)
    requires
        parse_varint(b, budget) is Some,
    ensures
        ({
            let (v, n) = parse_varint(b, budget).unwrap();
            v < pow128(budget) && 1 <= n <= budget && n <= b.len()
        }),
    decreases budget,
{
    if b[0] >= 128 {
        lemma_parse_varint_bounds(b.skip(1), (budget - 1) as nat);
    } else {
        lemma_pow128_positive((budget - 1) as nat);
    }
}

/// Every power of 128 is positive.
pub proof fn lemma_pow128_positive(k: nat)
    ensures
        pow128(k) >= 1,
    decreases k,
{
    if k > 0 {
        lemma_pow128_positive((k - 1) as nat);
    }
}

/// Appends the bytes of `src`.
pub fn append_bytes(out: &mut Vec<u8>, src: &[u8])
    ensures
        final(out)@ == old(out)@ + src@,
{
    out.extend_from_slice(src);
    assert(out@ =~= old(out)@ + src@);
}

/// Appends the base-128 encoding of a number.
pub fn encode_varint(value: u64, out: &mut Vec<u8>)
    ensures
        final(out)@ == old(out)@ + varint_bytes(value as nat),
{
    let mut v: u64 = value;
    while v >= 128
        invariant
            old(out)@ + varint_bytes(value as nat) == out@ + varint_bytes(v as nat),
        decreases v,
    {
        let ghost before = out@;
        let byte: u8 = (v % 128 + 128) as u8;
        out.push(byte);
        assert(before + (seq![byte] + varint_bytes((v / 128) as nat)) =~= before.push(byte)
            + varint_bytes((v / 128) as nat));
        v = v / 128;
    }
    let ghost before = out@;
    out.push(v as u8);
    assert(before + seq![v as u8] =~= before.push(v as u8));
}

/// Reads a base-128 number of at most `budget` bytes at `pos`: the number
/// and the position behind it.
fn decode_varint_within(buf: &[u8], pos: usize, budget: u8) -> (r: Option<(u128, usize)>)
    requires
        pos <= buf.len(),
        budget <= 10,
    ensures
        match parse_varint(buf@.skip(pos as int), budget as nat) {
            Some((v, n)) => r == Some((v as u128, (pos + n) as usize)) && v < pow128(budget as nat)
                && pos + n <= buf.len(),
            None => r is None,
        },
    decreases budget,
{
    let ghost b = buf@.skip(pos as int);
    if budget == 0 || pos >= buf.len() {
        return None;
    }
    let byte = buf[pos];
    assert(b[0] == byte);
    proof {
        lemma_pow128_values();
        lemma_pow128_positive((budget - 1) as nat);
    }
    if byte < 128 {
        return Some((byte as u128, pos + 1));
    }
    assert(b.skip(1) =~= buf@.skip(pos + 1));
    match decode_varint_within(buf, pos + 1, budget - 1) {
        Some((v, next)) => {
            proof {
                lemma_pow128_bound((budget - 1) as nat);
            }
            Some(((byte - 128) as u128 + 128 * v, next))
        },
        None => None,
    }
}

/// The powers of 128 up to the tenth fit 71 bits.
proof fn lemma_pow128_bound(k: nat)
    requires
        k <= 10,
    ensures
        pow128(k) <= 0x400000000000000000,
    decreases 10 - k,
{
    lemma_pow128_values();
    if k < 10 {
        lemma_pow128_bound(k + 1);
    }
}

/// Reads a base-128 number that fits 64 bits at `pos`: the number and the
/// position behind it. Nothing is read at a position behind the buffer.
pub fn decode_varint(buf: &[u8], pos: usize) -> (r: Option<(u64, usize)>)
    ensures
        pos > buf.len() ==> r is None,
        pos <= buf.len() ==> match parse_u64(buf@.skip(pos as int)) {
            Some((v, n)) => r == Some((v, (pos + n) as usize)) && pos + n <= buf.len() && n >= 1,
            None => r is None,
        },
{
    if pos > buf.len() {
        return None;
    }
    proof {
        lemma_pow128_values();
    }
    match decode_varint_within(buf, pos, 10) {
        Some((v, next)) => {
            proof {
                lemma_parse_varint_bounds(buf@.skip(pos as int), 10);
            }
            if v <= u64::MAX as u128 {
                Some((v as u64, next))
            } else {
                None
            }
        },
        None => None,
    }
}

/// `acc` followed by what was read, where something was read.
pub open spec fn prepend(acc: Seq<FieldView>, read: Option<Seq<FieldView>>) -> Option<
    Seq<FieldView>,
> {
    match read {
        Some(rest) => Some(acc + rest),
        None => None,
    }
}

/// The key of a field with the given wire type.
fn key_value(number: u32, wire_type: u8) -> (r: u64)
    requires
        wire_type <= 5,
    ensures
        r == key_of(number, wire_type),
{
    (number as u64) * 8 + (wire_type as u64)
}

/// Appends the bytes of one field.
pub fn encode_field(field: &Field, out: &mut Vec<u8>)
    ensures
        final(out)@ == old(out)@ + field_bytes(field@),
{
    let ghost before = out@;
    match &field.value {
        Value::Varint(v) => {
            encode_varint(key_value(field.number, WIRE_VARINT), out);
            encode_varint(*v, out);
        },
        Value::Bytes(b) => {
            encode_varint(key_value(field.number, WIRE_BYTES), out);
            encode_varint(b.len() as u64, out);
            append_bytes(out, b.as_slice());
        },
        Value::Fixed64(b) => {
            encode_varint(key_value(field.number, WIRE_FIXED64), out);
            append_bytes(out, b.as_slice());
        },
        Value::Fixed32(b) => {
            encode_varint(key_value(field.number, WIRE_FIXED32), out);
            append_bytes(out, b.as_slice());
        },
        Value::Group => {
            encode_varint(key_value(field.number, WIRE_START_GROUP), out);
            encode_varint(key_value(field.number, WIRE_END_GROUP), out);
        },
    }
    assert(out@ =~= before + field_bytes(field@));
}

/// The bytes of a list of fields with one more field are the bytes of the
/// list followed by those of the field.
pub proof fn lemma_fields_bytes_push(fields: Seq<FieldView>, f: FieldView)
    ensures
        fields_bytes(fields.push(f)) == fields_bytes(fields) + field_bytes(f),
    decreases fields.len(),
{
    if fields.len() == 0 {
        assert(fields.push(f).skip(1) =~= Seq::<FieldView>::empty());
        assert(fields.push(f)[0] == f);
        assert(fields_bytes(fields.push(f).skip(1)) =~= Seq::<u8>::empty());
        assert(fields_bytes(fields.push(f)) =~= field_bytes(f) + Seq::<u8>::empty());
        assert(fields_bytes(fields) + field_bytes(f) =~= field_bytes(f));
    } else {
        lemma_fields_bytes_push(fields.skip(1), f);
        assert(fields.push(f).skip(1) =~= fields.skip(1).push(f));
        assert(fields_bytes(fields.push(f)) =~= fields_bytes(fields) + field_bytes(f));
    }
}

/// The bytes of a list of fields.
pub fn encode_fields(fields: &Vec<Field>) -> (r: Vec<u8>)
    ensures
        r@ == fields_bytes(field_views(fields@)),
{
    let mut out: Vec<u8> = Vec::new();
    let mut i: usize = 0;
    assert(field_views(fields@).take(0) =~= Seq::<FieldView>::empty());
    while i < fields.len()
        invariant
            i <= fields.len(),
            out@ == fields_bytes(field_views(fields@).take(i as int)),
        decreases fields.len() - i,
    {
        proof {
            let all = field_views(fields@);
            lemma_fields_bytes_push(all.take(i as int), all[i as int]);
            assert(all.take(i + 1) =~= all.take(i as int).push(all[i as int]));
        }
        encode_field(&fields[i], &mut out);
        i += 1;
    }
    assert(field_views(fields@).take(i as int) =~= field_views(fields@));
    out
}

/// Reads a key at `pos`: the field number, the wire type, and the
/// position behind the key.
fn decode_key(buf: &[u8], pos: usize) -> (r: Option<(u32, u8, usize)>)
    requires
        pos <= buf.len(),
    ensures
        match parse_key(buf@.skip(pos as int)) {
            Some(key) => r == Some((key.number, key.wire_type, (pos + key.len) as usize)) && pos
                + key.len <= buf.len() && key.len >= 1 && key.wire_type <= 5,
            None => r is None,
        },
{
    match decode_varint(buf, pos) {
        Some((key, at)) => {
            if key > u32::MAX as u64 || key % 8 > 5 || key / 8 == 0 {
                None
            } else {
                Some(((key / 8) as u32, (key % 8) as u8, at))
            }
        },
        None => None,
    }
}

/// Reads a length and that many bytes at `pos`: where the bytes begin and
/// where they end.
fn decode_delimited(buf: &[u8], pos: usize) -> (r: Option<(usize, usize)>)
    requires
        pos <= buf.len(),
    ensures
        match parse_delimited(buf@.skip(pos as int)) {
            Some((bytes, n)) => r is Some && pos <= r.unwrap().0 <= r.unwrap().1 <= buf.len()
                && r.unwrap().1 == pos + n && bytes == buf@.subrange(
                r.unwrap().0 as int,
                r.unwrap().1 as int,
            ),
            None => r is None,
        },
{
    match decode_varint(buf, pos) {
        Some((len, start)) => {
            if len <= (buf.len() - start) as u64 {
                let end: usize = start + len as usize;
                assert(buf@.skip(pos as int).subrange(start - pos, start - pos + len)
                    =~= buf@.subrange(start as int, end as int));
                Some((start, end))
            } else {
                None
            }
        },
        None => None,
    }
}

/// Passes over the value of a field at `pos`: the position behind it.
fn pass_value(buf: &[u8], pos: usize, wire_type: u8, number: u32, depth: u32) -> (r: Option<usize>)
    requires
        pos <= buf.len(),
    ensures
        match skip_value(buf@.skip(pos as int), wire_type, number, depth as nat) {
            Some(n) => r == Some((pos + n) as usize) && pos + n <= buf.len(),
            None => r is None,
        },
    decreases depth, buf.len() - pos, 1nat,
{
    if depth == 0 {
        None
    } else if wire_type == WIRE_VARINT {
        match decode_varint(buf, pos) {
            Some((v, next)) => Some(next),
            None => None,
        }
    } else if wire_type == WIRE_FIXED64 {
        if buf.len() - pos >= 8 {
            Some(pos + 8)
        } else {
            None
        }
    } else if wire_type == WIRE_FIXED32 {
        if buf.len() - pos >= 4 {
            Some(pos + 4)
        } else {
            None
        }
    } else if wire_type == WIRE_BYTES {
        match decode_delimited(buf, pos) {
            Some((start, end)) => Some(end),
            None => None,
        }
    } else if wire_type == WIRE_START_GROUP {
        pass_group(buf, pos, number, depth)
    } else {
        None
    }
}

/// Passes over the rest of a group at `pos`: the position behind the key
/// that ends it.
fn pass_group(buf: &[u8], pos: usize, number: u32, depth: u32) -> (r: Option<usize>)
    requires
        pos <= buf.len(),
    ensures
        match skip_group(buf@.skip(pos as int), number, depth as nat) {
            Some(n) => r == Some((pos + n) as usize) && pos + n <= buf.len(),
            None => r is None,
        },
    decreases depth, buf.len() - pos, 0nat,
{
    if depth == 0 {
        return None;
    }
    let ghost b = buf@.skip(pos as int);
    match decode_key(buf, pos) {
        None => None,
        Some((tag, wire_type, at)) => {
            if wire_type == WIRE_END_GROUP {
                if tag == number {
                    Some(at)
                } else {
                    None
                }
            } else {
                assert(b.skip(at - pos) =~= buf@.skip(at as int));
                match pass_value(buf, at, wire_type, tag, depth - 1) {
                    None => None,
                    Some(next) => {
                        assert(b.skip(next - pos) =~= buf@.skip(next as int));
                        pass_group(buf, next, number, depth)
                    },
                }
            }
        },
    }
}

/// Reads one field at `pos`: the field and the position behind it.
fn decode_step(buf: &[u8], pos: usize, forced: u32, depth: u32) -> (r: Option<(Field, usize)>)
    requires
        pos <= buf.len(),
    ensures
        match parse_step(buf@.skip(pos as int), forced, depth as nat) {
            Some((f, n)) => r is Some && r.unwrap().0@ == f && r.unwrap().1 == pos + n && n > 0
                && pos + n <= buf.len(),
            None => r is None,
        },
{
    let ghost b = buf@.skip(pos as int);
    let (number, wire_type, at) = match decode_key(buf, pos) {
        Some(x) => x,
        None => {
            return None;
        },
    };
    let ghost rest = b.skip(at - pos);
    assert(rest =~= buf@.skip(at as int));
    if number == forced || wire_type == WIRE_BYTES {
        match decode_delimited(buf, at) {
            Some((start, end)) => {
                let bytes = vstd::slice::slice_to_vec(
                    vstd::slice::slice_subrange(buf, start, end),
                );
                Some((Field { number, value: Value::Bytes(bytes) }, end))
            },
            None => None,
        }
    } else if wire_type == WIRE_VARINT {
        match decode_varint(buf, at) {
            Some((v, next)) => Some((Field { number, value: Value::Varint(v) }, next)),
            None => None,
        }
    } else if wire_type == WIRE_FIXED64 {
        if buf.len() - at >= 8 {
            let bytes = vstd::slice::slice_to_vec(vstd::slice::slice_subrange(buf, at, at + 8));
            assert(bytes@ =~= rest.subrange(0, 8));
            Some((Field { number, value: Value::Fixed64(bytes) }, at + 8))
        } else {
            None
        }
    } else if wire_type == WIRE_FIXED32 {
        if buf.len() - at >= 4 {
            let bytes = vstd::slice::slice_to_vec(vstd::slice::slice_subrange(buf, at, at + 4));
            assert(bytes@ =~= rest.subrange(0, 4));
            Some((Field { number, value: Value::Fixed32(bytes) }, at + 4))
        } else {
            None
        }
    } else if wire_type == WIRE_START_GROUP {
        match pass_group(buf, at, number, depth) {
            Some(next) => Some((Field { number, value: Value::Group }, next)),
            None => None,
        }
    } else {
        None
    }
}

/// Reads the fields of a message, with `depth` levels of nesting left for
/// its groups. The field with the number `forced` is read as a length and
/// that many bytes whatever its wire type; zero stands for no such field.
pub fn decode_fields(buf: &[u8], forced: u32, depth: u32) -> (r: Option<Vec<Field>>)
    ensures
        match parse_fields(buf@, forced, depth as nat) {
            Some(fields) => r is Some && field_views(r.unwrap()@) == fields,
            None => r is None,
        },
{
    let mut out: Vec<Field> = Vec::new();
    let mut pos: usize = 0;
    proof {
        assert(buf@.skip(0) =~= buf@);
        assert(field_views(out@) =~= Seq::<FieldView>::empty());
        match parse_fields(buf@, forced, depth as nat) {
            Some(rest) => {
                assert(Seq::<FieldView>::empty() + rest =~= rest);
            },
            None => {},
        }
    }
    while pos < buf.len()
        invariant
            pos <= buf.len(),
            parse_fields(buf@, forced, depth as nat) == prepend(
                field_views(out@),
                parse_fields(buf@.skip(pos as int), forced, depth as nat),
            ),
        decreases buf.len() - pos,
    {
        let ghost b = buf@.skip(pos as int);
        let ghost acc = field_views(out@);
        match decode_step(buf, pos, forced, depth) {
            Some((f, next)) => {
                assert(b.skip(next - pos) =~= buf@.skip(next as int));
                out.push(f);
                proof {
                    assert(field_views(out@) =~= acc.push(f@));
                    match parse_fields(buf@.skip(next as int), forced, depth as nat) {
                        Some(rest) => {
                            assert(acc + (seq![f@] + rest) =~= acc.push(f@) + rest);
                        },
                        None => {},
                    }
                }
                pos = next;
            },
            None => {
                return None;
            },
        }
    }
    proof {
        assert(buf@.skip(pos as int) =~= Seq::<u8>::empty());
        assert(field_views(out@) + Seq::<FieldView>::empty() =~= field_views(out@));
    }
    Some(out)
}

/// A field that is read back as it was written, where the field with the
/// number `forced` is read as bytes whatever its wire type: its number
/// lies between one and the largest field number; its bytes are no more
/// than a 64-bit length can count, or as many as its fixed width says; it
/// is no group; and it holds bytes if it has the forced number.
pub open spec fn valid_field(f: FieldView, forced: u32) -> bool {
    1 <= f.number <= MAX_FIELD_NUMBER && match f.value {
        ValueView::Varint(_) => f.number != forced,
        ValueView::Bytes(b) => b.len() <= u64::MAX,
        ValueView::Fixed64(b) => b.len() == 8 && f.number != forced,
        ValueView::Fixed32(b) => b.len() == 4 && f.number != forced,
        ValueView::Group => false,
    }
}

/// The encoding of a number below 128 to the power of `k` takes at most
/// `k` bytes.
pub proof fn lemma_varint_len(v: nat, k: nat)
    requires
        k >= 1,
        v < pow128(k),
    ensures
        1 <= varint_bytes(v).len() <= k,
    decreases v,
{
    if v >= 128 {
        if k == 1 {
            lemma_pow128_values();
        } else {
            assert(v / 128 < pow128((k - 1) as nat));
            lemma_varint_len(v / 128, (k - 1) as nat);
        }
    }
}

/// An encoded number, whatever follows it, is read back as that number
/// and its own length.
pub proof fn lemma_varint_roundtrip(v: nat, rest: Seq<u8>, budget: nat)
    requires
        varint_bytes(v).len() <= budget,
    ensures
        parse_varint(varint_bytes(v) + rest, budget) == Some((v, varint_bytes(v).len())),
    decreases v,
{
    let b = varint_bytes(v) + rest;
    if v < 128 {
        assert(b[0] == v as u8);
    } else {
        assert(b[0] == (v % 128 + 128) as u8);
        assert(b.skip(1) =~= varint_bytes(v / 128) + rest);
        lemma_varint_roundtrip(v / 128, rest, (budget - 1) as nat);
    }
}

/// An encoded 64-bit number, whatever follows it, is read back.
pub proof fn lemma_u64_roundtrip(v: u64, rest: Seq<u8>)
    ensures
        parse_u64(varint_bytes(v as nat) + rest) == Some((v, varint_bytes(v as nat).len())),
        1 <= varint_bytes(v as nat).len() <= 10,
{
    lemma_pow128_values();
    lemma_varint_len(v as nat, 10);
    lemma_varint_roundtrip(v as nat, rest, 10);
}

/// The key of a field, whatever follows it, is read back.
pub proof fn lemma_key_roundtrip(number: u32, wire_type: u8, rest: Seq<u8>)
    requires
        1 <= number <= MAX_FIELD_NUMBER,
        wire_type <= 5,
    ensures
        parse_key(varint_bytes(key_of(number, wire_type)) + rest) == Some(
            KeyView { number, wire_type, len: varint_bytes(key_of(number, wire_type)).len() },
        ),
        varint_bytes(key_of(number, wire_type)).len() >= 1,
{
    lemma_u64_roundtrip(key_of(number, wire_type) as u64, rest);
}

/// An encoded field, whatever follows it, is read back as that field and
/// its own length.
pub proof fn lemma_field_roundtrip(f: FieldView, rest: Seq<u8>, forced: u32, depth: nat)
    requires
        valid_field(f, forced),
    ensures
        parse_step(field_bytes(f) + rest, forced, depth) == Some((f, field_bytes(f).len())),
        field_bytes(f).len() > 0,
{
    match f.value {
        ValueView::Varint(v) => {
            let kb = varint_bytes(key_of(f.number, WIRE_VARINT));
            let vb = varint_bytes(v as nat);
            assert(field_bytes(f) + rest =~= kb + (vb + rest));
            lemma_key_roundtrip(f.number, WIRE_VARINT, vb + rest);
            assert((kb + (vb + rest)).skip(kb.len() as int) =~= vb + rest);
            lemma_u64_roundtrip(v, rest);
        },
        ValueView::Bytes(b) => {
            let kb = varint_bytes(key_of(f.number, WIRE_BYTES));
            let lb = varint_bytes(b.len());
            assert(field_bytes(f) + rest =~= kb + (lb + (b + rest)));
            lemma_key_roundtrip(f.number, WIRE_BYTES, lb + (b + rest));
            assert((kb + (lb + (b + rest))).skip(kb.len() as int) =~= lb + (b + rest));
            lemma_u64_roundtrip(b.len() as u64, b + rest);
            assert((lb + (b + rest)).subrange(lb.len() as int, (lb.len() + b.len()) as int)
                =~= b);
        },
        ValueView::Fixed64(b) => {
            let kb = varint_bytes(key_of(f.number, WIRE_FIXED64));
            assert(field_bytes(f) + rest =~= kb + (b + rest));
            lemma_key_roundtrip(f.number, WIRE_FIXED64, b + rest);
            assert((kb + (b + rest)).skip(kb.len() as int) =~= b + rest);
            assert((b + rest).subrange(0, 8) =~= b);
        },
        ValueView::Fixed32(b) => {
            let kb = varint_bytes(key_of(f.number, WIRE_FIXED32));
            assert(field_bytes(f) + rest =~= kb + (b + rest));
            lemma_key_roundtrip(f.number, WIRE_FIXED32, b + rest);
            assert((kb + (b + rest)).skip(kb.len() as int) =~= b + rest);
            assert((b + rest).subrange(0, 4) =~= b);
        },
        ValueView::Group => {},
    }
}

/// The bytes of a list of valid fields are read back as that list.
pub proof fn lemma_fields_roundtrip(fields: Seq<FieldView>, forced: u32, depth: nat)
    requires
        forall|i: int| 0 <= i < fields.len() ==> valid_field(#[trigger] fields[i], forced),
    ensures
        parse_fields(fields_bytes(fields), forced, depth) == Some(fields),
    decreases fields.len(),
{
    if fields.len() == 0 {
        assert(fields =~= Seq::<FieldView>::empty());
    } else {
        let head = field_bytes(fields[0]);
        let tail = fields_bytes(fields.skip(1));
        lemma_field_roundtrip(fields[0], tail, forced, depth);
        assert((head + tail).skip(head.len() as int) =~= tail);
        lemma_fields_roundtrip(fields.skip(1), forced, depth);
        assert(seq![fields[0]] + fields.skip(1) =~= fields);
    }
}

} // verus!
