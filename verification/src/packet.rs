//! The packets of the file-sync protocol and their wire format.

use crate::error::Error;
use crate::text::string_from_utf8;
use crate::wire::{
    decode_fields, encode_fields, field_views, fields_bytes, parse_fields, Field, FieldView, Value,
    NESTING_LIMIT,
    ValueView,
};
use vstd::prelude::*;
use vstd::utf8::{decode_utf8, encode_utf8, valid_utf8};

verus! {

/// The kind of a packet.
#[derive(Debug, Clone, Copy, PartialEq, Eq, Structural)]
pub enum PacketType {
    /// Metadata of one entry, or the end of the listing.
    Stat,
    /// A request for the contents of a file.
    Req,
    /// A chunk of a file; empty at the end of the file.
    Data,
    /// The end of the transfer.
    Fin,
}

/// One extended attribute. A list of attributes stands for the map that
/// `xattr_map` gives.
#[derive(Debug, Clone, PartialEq, Eq)]
pub struct Xattr {
    pub name: String,
    pub value: Vec<u8>,
}

/// The metadata of one entry as the daemon sees it.
#[derive(Debug, Clone, PartialEq, Eq)]
pub struct Stat {
    pub path: String,
    pub mode: u32,
    pub uid: u32,
    pub gid: u32,
    pub size: i64,
    pub mod_time: i64,
    pub linkname: String,
    pub devmajor: i64,
    pub devminor: i64,
    pub xattrs: Vec<Xattr>,
}

/// One packet.
#[derive(Debug, Clone, PartialEq, Eq)]
pub struct Packet {
    pub packet_type: PacketType,
    pub stat: Option<Stat>,
    pub id: u32,
    pub data: Vec<u8>,
}

/// An extended attribute as plain values: its name and its value.
pub type XattrView = (Seq<char>, Seq<u8>);

/// A stat record as plain values.
pub ghost struct StatView {
    pub path: Seq<char>,
    pub mode: u32,
    pub uid: u32,
    pub gid: u32,
    pub size: i64,
    pub mod_time: i64,
    pub linkname: Seq<char>,
    pub devmajor: i64,
    pub devminor: i64,
    pub xattrs: Seq<XattrView>,
}

/// A packet as plain values.
pub ghost struct PacketView {
    pub packet_type: PacketType,
    pub stat: Option<StatView>,
    pub id: u32,
    pub data: Seq<u8>,
}

impl View for Xattr {
    type V = XattrView;

    open spec fn view(&self) -> XattrView {
        (self.name@, self.value@)
    }
}

impl View for Stat {
    type V = StatView;

    open spec fn view(&self) -> StatView {
        StatView {
            path: self.path@,
            mode: self.mode,
            uid: self.uid,
            gid: self.gid,
            size: self.size,
            mod_time: self.mod_time,
            linkname: self.linkname@,
            devmajor: self.devmajor,
            devminor: self.devminor,
            xattrs: self.xattrs@.map_values(|x: Xattr| x@),
        }
    }
}

/// The stat record of a packet as plain values, where there is one.
pub open spec fn stat_view(stat: Option<Stat>) -> Option<StatView> {
    match stat {
        Some(s) => Some(s@),
        None => None,
    }
}

impl View for Packet {
    type V = PacketView;

    open spec fn view(&self) -> PacketView {
        PacketView {
            packet_type: self.packet_type,
            stat: stat_view(self.stat),
            id: self.id,
            data: self.data@,
        }
    }
}

/// The mapping that a list of extended attributes stands for: a later
/// attribute takes the place of an earlier one with the same name.
pub open spec fn xattr_map(xattrs: Seq<XattrView>) -> Map<Seq<char>, Seq<u8>>
    decreases xattrs.len(),
{
    if xattrs.len() == 0 {
        Map::empty()
    } else {
        xattr_map(xattrs.drop_last()).insert(xattrs.last().0, xattrs.last().1)
    }
}

/// The stat record in which every field has its default value.
pub open spec fn empty_stat() -> StatView {
    StatView {
        path: Seq::empty(),
        mode: 0,
        uid: 0,
        gid: 0,
        size: 0,
        mod_time: 0,
        linkname: Seq::empty(),
        devmajor: 0,
        devminor: 0,
        xattrs: Seq::empty(),
    }
}

/// The packet in which every field has its default value.
pub open spec fn empty_packet() -> PacketView {
    PacketView { packet_type: PacketType::Stat, stat: None, id: 0, data: Seq::empty() }
}

/// The number that stands for a packet type on the wire.
pub open spec fn type_code(t: PacketType) -> u64 {
    match t {
        PacketType::Stat => 0,
        PacketType::Req => 1,
        PacketType::Data => 2,
        PacketType::Fin => 3,
    }
}

/// The packet type that a number stands for, if any.
pub open spec fn type_of_code(code: u64) -> Option<PacketType> {
    if code == 0 {
        Some(PacketType::Stat)
    } else if code == 1 {
        Some(PacketType::Req)
    } else if code == 2 {
        Some(PacketType::Data)
    } else if code == 3 {
        Some(PacketType::Fin)
    } else {
        None
    }
}

/// The low 32 bits of a number.
pub open spec fn low32(v: u64) -> u32 {
    (v % 0x100000000) as u32
}

/// The signed number that 64 bits stand for in two's complement.
pub open spec fn signed_of(v: u64) -> i64 {
    if v <= 0x7fffffffffffffff {
        v as i64
    } else {
        (v - 0x10000000000000000) as i64
    }
}

/// The 64 bits that stand for a signed number in two's complement.
pub open spec fn unsigned_of(x: i64) -> u64 {
    if x >= 0 {
        x as u64
    } else {
        (x + 0x10000000000000000) as u64
    }
}

/// An integer field, left out where the number is zero.
pub open spec fn opt_varint(number: u32, v: u64) -> Seq<FieldView> {
    if v == 0 {
        Seq::empty()
    } else {
        seq![FieldView { number, value: ValueView::Varint(v) }]
    }
}

/// A length-delimited field, left out where there are no bytes.
pub open spec fn opt_bytes(number: u32, b: Seq<u8>) -> Seq<FieldView> {
    if b.len() == 0 {
        Seq::empty()
    } else {
        seq![FieldView { number, value: ValueView::Bytes(b) }]
    }
}

/// The fields of an extended attribute: the name as field 1, the value as
/// field 2.
pub open spec fn xattr_fields(x: XattrView) -> Seq<FieldView> {
    opt_bytes(1, encode_utf8(x.0)) + opt_bytes(2, x.1)
}

/// The fields that carry the extended attributes: one field 10 for each.
pub open spec fn xattrs_fields(xattrs: Seq<XattrView>) -> Seq<FieldView> {
    xattrs.map_values(
        |x: XattrView|
            FieldView { number: 10, value: ValueView::Bytes(fields_bytes(xattr_fields(x))) },
    )
}

/// The fields of a stat record, in the order of their numbers. A field
/// with its default value is left out.
pub open spec fn stat_fields(s: StatView) -> Seq<FieldView> {
    opt_bytes(1, encode_utf8(s.path)) + opt_varint(2, s.mode as u64) + opt_varint(3, s.uid as u64)
        + opt_varint(4, s.gid as u64) + opt_varint(5, unsigned_of(s.size)) + opt_varint(
        6,
        unsigned_of(s.mod_time),
    ) + opt_bytes(7, encode_utf8(s.linkname)) + opt_varint(8, unsigned_of(s.devmajor))
        + opt_varint(9, unsigned_of(s.devminor)) + xattrs_fields(s.xattrs)
}

/// The bytes of a stat record.
pub open spec fn stat_bytes(s: StatView) -> Seq<u8> {
    fields_bytes(stat_fields(s))
}

/// The field that carries the stat record of a packet, where there is one.
pub open spec fn opt_stat(stat: Option<StatView>) -> Seq<FieldView> {
    match stat {
        Some(s) => seq![FieldView { number: 2, value: ValueView::Bytes(stat_bytes(s)) }],
        None => Seq::empty(),
    }
}

/// The fields of a packet, in the order of their numbers.
pub open spec fn packet_fields(p: PacketView) -> Seq<FieldView> {
    opt_varint(1, type_code(p.packet_type)) + opt_stat(p.stat) + opt_varint(3, p.id as u64)
        + opt_bytes(4, p.data)
}

/// The bytes of a packet.
pub open spec fn packet_bytes(p: PacketView) -> Seq<u8> {
    fields_bytes(packet_fields(p))
}

/// What one field does to an extended attribute that is being read.
pub open spec fn xattr_apply(acc: XattrView, f: FieldView) -> Option<XattrView> {
    if f.number == 1 {
        match f.value {
            ValueView::Bytes(b) => if valid_utf8(b) {
                Some((decode_utf8(b), acc.1))
            } else {
                None
            },
            _ => None,
        }
    } else if f.number == 2 {
        match f.value {
            ValueView::Bytes(b) => Some((acc.0, b)),
            _ => None,
        }
    } else {
        Some(acc)
    }
}

/// Reads an extended attribute from fields, starting from `init`.
pub open spec fn xattr_fold(init: XattrView, fields: Seq<FieldView>) -> Option<XattrView>
    decreases fields.len(),
{
    if fields.len() == 0 {
        Some(init)
    } else {
        match xattr_fold(init, fields.drop_last()) {
            Some(acc) => xattr_apply(acc, fields.last()),
            None => None,
        }
    }
}

/// How deep fields may be nested in a stat record, which stands one level
/// deep in a packet.
pub const STAT_DEPTH: u32 = 99;

/// How deep fields may be nested in an extended attribute, which stands
/// one level deep in a stat record.
pub const XATTR_DEPTH: u32 = 98;

/// The number of the field of a stat record that holds an extended
/// attribute. It is read as a length and that many bytes whatever its wire
/// type.
pub const XATTR_FIELD: u32 = 10;

/// Reads an extended attribute from bytes, as it stands in a stat record.
pub open spec fn parse_xattr(b: Seq<u8>) -> Option<XattrView> {
    match parse_fields(b, 0, XATTR_DEPTH as nat) {
        Some(fields) => xattr_fold((Seq::empty(), Seq::empty()), fields),
        None => None,
    }
}

/// What one field does to a stat record that is being read. A field with
/// a known number must have the wire type of that number; a later value
/// replaces an earlier one, an extended attribute is added to those before
/// it, and a field with an unknown number changes nothing.
pub open spec fn stat_apply(acc: StatView, f: FieldView) -> Option<StatView> {
    if f.number == 1 || f.number == 7 || f.number == 10 {
        match f.value {
            ValueView::Bytes(b) => if f.number == 10 {
                match parse_xattr(b) {
                    Some(x) => Some(StatView { xattrs: acc.xattrs.push(x), ..acc }),
                    None => None,
                }
            } else if !valid_utf8(b) {
                None
            } else if f.number == 1 {
                Some(StatView { path: decode_utf8(b), ..acc })
            } else {
                Some(StatView { linkname: decode_utf8(b), ..acc })
            },
            _ => None,
        }
    } else if 2 <= f.number <= 9 {
        match f.value {
            ValueView::Varint(v) => Some(
                if f.number == 2 {
                    StatView { mode: low32(v), ..acc }
                } else if f.number == 3 {
                    StatView { uid: low32(v), ..acc }
                } else if f.number == 4 {
                    StatView { gid: low32(v), ..acc }
                } else if f.number == 5 {
                    StatView { size: signed_of(v), ..acc }
                } else if f.number == 6 {
                    StatView { mod_time: signed_of(v), ..acc }
                } else if f.number == 8 {
                    StatView { devmajor: signed_of(v), ..acc }
                } else {
                    StatView { devminor: signed_of(v), ..acc }
                },
            ),
            _ => None,
        }
    } else {
        Some(acc)
    }
}

/// Reads a stat record from fields, starting from `init`.
pub open spec fn stat_fold(init: StatView, fields: Seq<FieldView>) -> Option<StatView>
    decreases fields.len(),
{
    if fields.len() == 0 {
        Some(init)
    } else {
        match stat_fold(init, fields.drop_last()) {
            Some(acc) => stat_apply(acc, fields.last()),
            None => None,
        }
    }
}

/// Reads a stat record from bytes into `init`, as it stands in a packet.
pub open spec fn parse_stat_into(init: StatView, b: Seq<u8>) -> Option<StatView> {
    match parse_fields(b, XATTR_FIELD, STAT_DEPTH as nat) {
        Some(fields) => stat_fold(init, fields),
        None => None,
    }
}

/// What one field does to a packet that is being read. The type, of which
/// the low 32 bits count, must be one of the four known; a second stat
/// record is read into the first.
pub open spec fn packet_apply(acc: PacketView, f: FieldView) -> Option<PacketView> {
    if f.number == 1 {
        match f.value {
            ValueView::Varint(v) => match type_of_code(low32(v) as u64) {
                Some(t) => Some(PacketView { packet_type: t, ..acc }),
                None => None,
            },
            _ => None,
        }
    } else if f.number == 2 {
        match f.value {
            ValueView::Bytes(b) => match parse_stat_into(
                match acc.stat {
                    Some(s) => s,
                    None => empty_stat(),
                },
                b,
            ) {
                Some(s) => Some(PacketView { stat: Some(s), ..acc }),
                None => None,
            },
            _ => None,
        }
    } else if f.number == 3 {
        match f.value {
            ValueView::Varint(v) => Some(PacketView { id: low32(v), ..acc }),
            _ => None,
        }
    } else if f.number == 4 {
        match f.value {
            ValueView::Bytes(b) => Some(PacketView { data: b, ..acc }),
            _ => None,
        }
    } else {
        Some(acc)
    }
}

/// Reads a packet from fields, starting from `init`.
pub open spec fn packet_fold(init: PacketView, fields: Seq<FieldView>) -> Option<PacketView>
    decreases fields.len(),
{
    if fields.len() == 0 {
        Some(init)
    } else {
        match packet_fold(init, fields.drop_last()) {
            Some(acc) => packet_apply(acc, fields.last()),
            None => None,
        }
    }
}

/// Reads a packet from bytes: the packet, or nothing where the bytes are
/// no well-formed packet.
pub open spec fn parse_packet(b: Seq<u8>) -> Option<PacketView> {
    match parse_fields(b, 0, NESTING_LIMIT as nat) {
        Some(fields) => packet_fold(empty_packet(), fields),
        None => None,
    }
}

/// The 64 bits that stand for a signed number.
pub fn to_unsigned(x: i64) -> (r: u64)
    ensures
        r == unsigned_of(x),
{
    if x >= 0 {
        x as u64
    } else {
        ((x - i64::MIN) as u64) + 0x8000000000000000
    }
}

/// The signed number that 64 bits stand for.
pub fn to_signed(v: u64) -> (r: i64)
    ensures
        r == signed_of(v),
{
    if v <= 0x7fffffffffffffff {
        v as i64
    } else {
        ((v - 0x8000000000000000) as i64) + i64::MIN
    }
}

/// The low 32 bits of a number.
pub fn to_low32(v: u64) -> (r: u32)
    ensures
        r == low32(v),
{
    (v % 0x100000000) as u32
}

/// Appends an integer field unless the number is zero.
fn push_varint(out: &mut Vec<Field>, number: u32, v: u64)
    ensures
        field_views(final(out)@) == field_views(old(out)@) + opt_varint(number, v),
{
    if v != 0 {
        out.push(Field { number, value: Value::Varint(v) });
    }
    assert(field_views(out@) =~= field_views(old(out)@) + opt_varint(number, v));
}

/// Appends a length-delimited field unless there are no bytes.
fn push_bytes(out: &mut Vec<Field>, number: u32, b: Vec<u8>)
    ensures
        field_views(final(out)@) == field_views(old(out)@) + opt_bytes(number, b@),
{
    if b.len() != 0 {
        out.push(Field { number, value: Value::Bytes(b) });
    }
    assert(field_views(out@) =~= field_views(old(out)@) + opt_bytes(number, b@));
}

impl PacketType {
    /// The number that stands for the type on the wire.
    pub fn code(self) -> (r: u64)
        ensures
            r == type_code(self),
    {
        match self {
            PacketType::Stat => 0,
            PacketType::Req => 1,
            PacketType::Data => 2,
            PacketType::Fin => 3,
        }
    }

    /// The type that a number stands for, if any.
    pub fn from_code(code: u64) -> (r: Option<PacketType>)
        ensures
            r == type_of_code(code),
    {
        if code == 0 {
            Some(PacketType::Stat)
        } else if code == 1 {
            Some(PacketType::Req)
        } else if code == 2 {
            Some(PacketType::Data)
        } else if code == 3 {
            Some(PacketType::Fin)
        } else {
            None
        }
    }
}

impl Xattr {
    /// The bytes of the attribute.
    pub fn encode(&self) -> (r: Vec<u8>)
        ensures
            r@ == fields_bytes(xattr_fields(self@)),
    {
        let mut fields: Vec<Field> = Vec::new();
        assert(field_views(fields@) =~= Seq::<FieldView>::empty());
        push_bytes(&mut fields, 1, self.name.as_str().as_bytes_vec());
        push_bytes(&mut fields, 2, vstd::slice::slice_to_vec(self.value.as_slice()));
        assert(field_views(fields@) =~= xattr_fields(self@));
        encode_fields(&fields)
    }

    /// Reads an attribute from bytes.
    pub fn decode(buf: &[u8]) -> (r: Option<Xattr>)
        ensures
            match parse_xattr(buf@) {
                Some(x) => r is Some && r.unwrap()@ == x,
                None => r is None,
            },
    {
        let fields = match decode_fields(buf, 0, XATTR_DEPTH) {
            Some(f) => f,
            None => {
                return None;
            },
        };
        let ghost all = field_views(fields@);
        let mut acc = Xattr { name: String::new(), value: Vec::new() };
        let mut i: usize = 0;
        assert(all.take(0) =~= Seq::<FieldView>::empty());
        while i < fields.len()
            invariant
                i <= fields.len(),
                all == field_views(fields@),
                parse_fields(buf@, 0, XATTR_DEPTH as nat) == Some(all),
                xattr_fold((Seq::empty(), Seq::empty()), all.take(i as int)) == Some(acc@),
            decreases fields.len() - i,
        {
            proof {
                assert(all.take(i + 1).drop_last() =~= all.take(i as int));
                assert(all.take(i + 1).last() == fields@[i as int]@);
            }
            let f = &fields[i];
            if f.number == 1 {
                match &f.value {
                    Value::Bytes(b) => match string_from_utf8(
                        vstd::slice::slice_to_vec(b.as_slice()),
                    ) {
                        Some(name) => {
                            acc.name = name;
                        },
                        None => {
                            proof {
                                lemma_xattr_fold_fails(
                                    (Seq::empty(), Seq::empty()),
                                    all,
                                    i + 1,
                                );
                            }
                            return None;
                        },
                    },
                    _ => {
                        proof {
                            lemma_xattr_fold_fails((Seq::empty(), Seq::empty()), all, i + 1);
                        }
                        return None;
                    },
                }
            } else if f.number == 2 {
                match &f.value {
                    Value::Bytes(b) => {
                        acc.value = vstd::slice::slice_to_vec(b.as_slice());
                    },
                    _ => {
                        proof {
                            lemma_xattr_fold_fails((Seq::empty(), Seq::empty()), all, i + 1);
                        }
                        return None;
                    },
                }
            }
            i += 1;
        }
        assert(all.take(i as int) =~= all);
        Some(acc)
    }
}

/// Where reading the first `k` fields fails, reading all of them fails.
pub proof fn lemma_xattr_fold_fails(init: XattrView, fields: Seq<FieldView>, k: int)
    requires
        0 <= k <= fields.len(),
        xattr_fold(init, fields.take(k)) is None,
    ensures
        xattr_fold(init, fields) is None,
    decreases fields.len() - k,
{
    if k < fields.len() {
        assert(fields.take(k + 1).drop_last() =~= fields.take(k));
        lemma_xattr_fold_fails(init, fields, k + 1);
    } else {
        assert(fields.take(k) =~= fields);
    }
}

/// Where reading the first `k` fields fails, reading all of them fails.
pub proof fn lemma_stat_fold_fails(init: StatView, fields: Seq<FieldView>, k: int)
    requires
        0 <= k <= fields.len(),
        stat_fold(init, fields.take(k)) is None,
    ensures
        stat_fold(init, fields) is None,
    decreases fields.len() - k,
{
    if k < fields.len() {
        assert(fields.take(k + 1).drop_last() =~= fields.take(k));
        lemma_stat_fold_fails(init, fields, k + 1);
    } else {
        assert(fields.take(k) =~= fields);
    }
}

/// Where reading the first `k` fields fails, reading all of them fails.
pub proof fn lemma_packet_fold_fails(init: PacketView, fields: Seq<FieldView>, k: int)
    requires
        0 <= k <= fields.len(),
        packet_fold(init, fields.take(k)) is None,
    ensures
        packet_fold(init, fields) is None,
    decreases fields.len() - k,
{
    if k < fields.len() {
        assert(fields.take(k + 1).drop_last() =~= fields.take(k));
        lemma_packet_fold_fails(init, fields, k + 1);
    } else {
        assert(fields.take(k) =~= fields);
    }
}

/// Applies one field to a stat record that is being read.
fn apply_stat_field(acc: Stat, f: &Field) -> (r: Option<Stat>)
    ensures
        match stat_apply(acc@, f@) {
            Some(s) => r is Some && r.unwrap()@ == s,
            None => r is None,
        },
{
    let mut acc = acc;
    let ghost before = acc@;
    let n = f.number;
    if n == 1 || n == 7 || n == 10 {
        match &f.value {
            Value::Bytes(b) => {
                if n == 10 {
                    match Xattr::decode(b.as_slice()) {
                        Some(x) => {
                            acc.xattrs.push(x);
                            assert(acc@.xattrs =~= before.xattrs.push(x@));
                            Some(acc)
                        },
                        None => None,
                    }
                } else {
                    match string_from_utf8(vstd::slice::slice_to_vec(b.as_slice())) {
                        Some(text) => {
                            if n == 1 {
                                acc.path = text;
                            } else {
                                acc.linkname = text;
                            }
                            Some(acc)
                        },
                        None => None,
                    }
                }
            },
            _ => None,
        }
    } else if 2 <= n && n <= 9 {
        match &f.value {
            Value::Varint(v) => {
                if n == 2 {
                    acc.mode = to_low32(*v);
                } else if n == 3 {
                    acc.uid = to_low32(*v);
                } else if n == 4 {
                    acc.gid = to_low32(*v);
                } else if n == 5 {
                    acc.size = to_signed(*v);
                } else if n == 6 {
                    acc.mod_time = to_signed(*v);
                } else if n == 8 {
                    acc.devmajor = to_signed(*v);
                } else {
                    acc.devminor = to_signed(*v);
                }
                Some(acc)
            },
            _ => None,
        }
    } else {
        Some(acc)
    }
}

impl Stat {
    /// The stat record in which every field has its default value.
    pub fn new() -> (r: Stat)
        ensures
            r@ == empty_stat(),
    {
        let r = Stat {
            path: String::new(),
            mode: 0,
            uid: 0,
            gid: 0,
            size: 0,
            mod_time: 0,
            linkname: String::new(),
            devmajor: 0,
            devminor: 0,
            xattrs: Vec::new(),
        };
        assert(r@.xattrs =~= Seq::<XattrView>::empty());
        r
    }

    /// The fields of the record.
    pub fn to_fields(&self) -> (r: Vec<Field>)
        ensures
            field_views(r@) == stat_fields(self@),
    {
        let mut out: Vec<Field> = Vec::new();
        assert(field_views(out@) =~= Seq::<FieldView>::empty());
        push_bytes(&mut out, 1, self.path.as_str().as_bytes_vec());
        push_varint(&mut out, 2, self.mode as u64);
        push_varint(&mut out, 3, self.uid as u64);
        push_varint(&mut out, 4, self.gid as u64);
        push_varint(&mut out, 5, to_unsigned(self.size));
        push_varint(&mut out, 6, to_unsigned(self.mod_time));
        push_bytes(&mut out, 7, self.linkname.as_str().as_bytes_vec());
        push_varint(&mut out, 8, to_unsigned(self.devmajor));
        push_varint(&mut out, 9, to_unsigned(self.devminor));
        let ghost head = field_views(out@);
        let ghost tail = xattrs_fields(self@.xattrs);
        let mut i: usize = 0;
        assert(head + tail.take(0) =~= head);
        while i < self.xattrs.len()
            invariant
                i <= self.xattrs.len(),
                tail == xattrs_fields(self@.xattrs),
                field_views(out@) == head + tail.take(i as int),
            decreases self.xattrs.len() - i,
        {
            let bytes = self.xattrs[i].encode();
            let ghost before = field_views(out@);
            out.push(Field { number: 10, value: Value::Bytes(bytes) });
            assert(field_views(out@) =~= before.push(tail[i as int]));
            assert(head + tail.take(i + 1) =~= (head + tail.take(i as int)).push(tail[i as int]));
            i += 1;
        }
        assert(tail.take(i as int) =~= tail);
        assert(head + tail =~= stat_fields(self@));
        out
    }

    /// The bytes of the record.
    pub fn encode(&self) -> (r: Vec<u8>)
        ensures
            r@ == stat_bytes(self@),
    {
        encode_fields(&self.to_fields())
    }

    /// Reads fields into the record: each field replaces what the record
    /// held, an extended attribute is added.
    pub fn merge_fields(self, fields: &Vec<Field>) -> (r: Option<Stat>)
        ensures
            match stat_fold(self@, field_views(fields@)) {
                Some(s) => r is Some && r.unwrap()@ == s,
                None => r is None,
            },
    {
        let ghost all = field_views(fields@);
        let ghost init = self@;
        let mut acc = self;
        let mut i: usize = 0;
        assert(all.take(0) =~= Seq::<FieldView>::empty());
        while i < fields.len()
            invariant
                i <= fields.len(),
                all == field_views(fields@),
                init == self@,
                stat_fold(init, all.take(i as int)) == Some(acc@),
            decreases fields.len() - i,
        {
            proof {
                assert(all.take(i + 1).drop_last() =~= all.take(i as int));
                assert(all.take(i + 1).last() == fields@[i as int]@);
            }
            match apply_stat_field(acc, &fields[i]) {
                Some(next) => {
                    acc = next;
                },
                None => {
                    proof {
                        lemma_stat_fold_fails(init, all, i + 1);
                    }
                    return None;
                },
            }
            i += 1;
        }
        assert(all.take(i as int) =~= all);
        Some(acc)
    }

    /// Reads bytes into the record.
    pub fn merge(self, buf: &[u8]) -> (r: Option<Stat>)
        ensures
            match parse_stat_into(self@, buf@) {
                Some(s) => r is Some && r.unwrap()@ == s,
                None => r is None,
            },
    {
        match decode_fields(buf, XATTR_FIELD, STAT_DEPTH) {
            Some(fields) => self.merge_fields(&fields),
            None => None,
        }
    }
}

/// Applies one field to a packet that is being read.
fn apply_packet_field(acc: Packet, f: &Field) -> (r: Option<Packet>)
    ensures
        match packet_apply(acc@, f@) {
            Some(p) => r is Some && r.unwrap()@ == p,
            None => r is None,
        },
{
    let mut acc = acc;
    let n = f.number;
    if n == 1 {
        match &f.value {
            Value::Varint(v) => match PacketType::from_code(to_low32(*v) as u64) {
                Some(t) => {
                    acc.packet_type = t;
                    Some(acc)
                },
                None => None,
            },
            _ => None,
        }
    } else if n == 2 {
        match &f.value {
            Value::Bytes(b) => {
                let init = match acc.stat {
                    Some(s) => s,
                    None => Stat::new(),
                };
                match init.merge(b.as_slice()) {
                    Some(s) => Some(
                        Packet {
                            packet_type: acc.packet_type,
                            stat: Some(s),
                            id: acc.id,
                            data: acc.data,
                        },
                    ),
                    None => None,
                }
            },
            _ => None,
        }
    } else if n == 3 {
        match &f.value {
            Value::Varint(v) => {
                acc.id = to_low32(*v);
                Some(acc)
            },
            _ => None,
        }
    } else if n == 4 {
        match &f.value {
            Value::Bytes(b) => {
                acc.data = vstd::slice::slice_to_vec(b.as_slice());
                Some(acc)
            },
            _ => None,
        }
    } else {
        Some(acc)
    }
}

impl Packet {
    /// The fields of the packet.
    pub fn to_fields(&self) -> (r: Vec<Field>)
        ensures
            field_views(r@) == packet_fields(self@),
    {
        let mut out: Vec<Field> = Vec::new();
        assert(field_views(out@) =~= Seq::<FieldView>::empty());
        push_varint(&mut out, 1, self.packet_type.code());
        let ghost head = field_views(out@);
        match &self.stat {
            Some(s) => {
                let bytes = s.encode();
                out.push(Field { number: 2, value: Value::Bytes(bytes) });
            },
            None => {},
        }
        assert(field_views(out@) =~= head + opt_stat(self@.stat));
        push_varint(&mut out, 3, self.id as u64);
        push_bytes(&mut out, 4, vstd::slice::slice_to_vec(self.data.as_slice()));
        out
    }

    /// The bytes of the packet.
    pub fn encode(&self) -> (r: Vec<u8>)
        ensures
            r@ == packet_bytes(self@),
    {
        encode_fields(&self.to_fields())
    }

    /// Reads a packet from bytes. Fails with a decode error exactly where
    /// the bytes are no well-formed packet.
    pub fn decode(buf: &[u8]) -> (r: Result<Packet, Error>)
        ensures
            match parse_packet(buf@) {
                Some(p) => r is Ok && r.unwrap()@ == p,
                None => r matches Err(Error::Decode { message_type }) && message_type@
                    == "Packet"@,
            },
    {
        let fields = match decode_fields(buf, 0, NESTING_LIMIT) {
            Some(f) => f,
            None => {
                return Err(Error::decode("Packet"));
            },
        };
        let ghost all = field_views(fields@);
        let mut acc = Packet { packet_type: PacketType::Stat, stat: None, id: 0, data: Vec::new() };
        let mut i: usize = 0;
        assert(all.take(0) =~= Seq::<FieldView>::empty());
        while i < fields.len()
            invariant
                i <= fields.len(),
                all == field_views(fields@),
                parse_fields(buf@, 0, NESTING_LIMIT as nat) == Some(all),
                packet_fold(empty_packet(), all.take(i as int)) == Some(acc@),
            decreases fields.len() - i,
        {
            proof {
                assert(all.take(i + 1).drop_last() =~= all.take(i as int));
                assert(all.take(i + 1).last() == fields@[i as int]@);
            }
            match apply_packet_field(acc, &fields[i]) {
                Some(next) => {
                    acc = next;
                },
                None => {
                    proof {
                        lemma_packet_fold_fails(empty_packet(), all, i + 1);
                    }
                    return Err(Error::decode("Packet"));
                },
            }
            i += 1;
        }
        assert(all.take(i as int) =~= all);
        Ok(acc)
    }
}

} // verus!
