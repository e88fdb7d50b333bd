//! What is written can be read back: a packet that is encoded and decoded
//! again is the packet that was encoded.

use crate::packet::{
    empty_packet, empty_stat, low32, opt_bytes, opt_stat, opt_varint, packet_apply, packet_bytes,
    packet_fields, packet_fold, parse_packet, parse_stat_into, parse_xattr, signed_of, stat_apply,
    stat_bytes, stat_fields, stat_fold, type_code, type_of_code, unsigned_of, xattr_apply,
    xattr_fields, xattr_fold, xattr_map, xattrs_fields, PacketView, StatView, XattrView,
};
use crate::frame::{framed, lemma_frame_roundtrip, parse_frame, FrameView};
use crate::wire::{fields_bytes, lemma_fields_roundtrip, valid_field, FieldView};
use vstd::prelude::*;
use vstd::utf8::{decode_utf8, encode_utf8};

verus! {

/// Every field of the list can be written and read back.
pub open spec fn all_valid(fields: Seq<FieldView>, forced: u32) -> bool {
    forall|i: int| 0 <= i < fields.len() ==> valid_field(#[trigger] fields[i], forced)
}

/// An extended attribute whose name and value are short enough for a
/// 64-bit length.
pub open spec fn encodable_xattr(x: XattrView) -> bool {
    encode_utf8(x.0).len() <= u64::MAX && x.1.len() <= u64::MAX && fields_bytes(
        xattr_fields(x),
    ).len() <= u64::MAX
}

/// A stat record whose texts and attributes are short enough for a 64-bit
/// length.
pub open spec fn encodable_stat(s: StatView) -> bool {
    encode_utf8(s.path).len() <= u64::MAX && encode_utf8(s.linkname).len() <= u64::MAX && (
    forall|i: int| 0 <= i < s.xattrs.len() ==> encodable_xattr(#[trigger] s.xattrs[i]))
        && stat_bytes(s).len() <= u64::MAX
}

/// A packet whose parts are short enough for a 64-bit length.
pub open spec fn encodable(p: PacketView) -> bool {
    p.data.len() <= u64::MAX && (p.stat matches Some(s) ==> encodable_stat(s))
}

/// Two lists of valid fields, one after the other, are a list of valid
/// fields.
pub proof fn lemma_all_valid_add(a: Seq<FieldView>, b: Seq<FieldView>, forced: u32)
    requires
        all_valid(a, forced),
        all_valid(b, forced),
    ensures
        all_valid(a + b, forced),
{
    assert forall|i: int| 0 <= i < (a + b).len() implies valid_field(
        #[trigger] (a + b)[i],
        forced,
    ) by {
        if i < a.len() {
            assert((a + b)[i] == a[i]);
        } else {
            assert((a + b)[i] == b[i - a.len()]);
        }
    }
}

/// Only the empty text has an empty encoding.
pub proof fn lemma_utf8_empty(text: Seq<char>)
    requires
        encode_utf8(text).len() == 0,
    ensures
        text == Seq::<char>::empty(),
{
    vstd::utf8::encode_utf8_decode_utf8(text);
    vstd::utf8::encode_utf8_valid_utf8(text);
    assert(decode_utf8(encode_utf8(text)) =~= Seq::<char>::empty());
}

/// The low 32 bits of a 32-bit number are the number; a signed number is
/// the signed number of its 64 bits, and only zero has the bits of zero.
pub proof fn lemma_numbers_roundtrip(m: u32, x: i64)
    ensures
        low32(m as u64) == m,
        signed_of(unsigned_of(x)) == x,
        unsigned_of(x) == 0 <==> x == 0,
{
}

/// Reading fields one list after the other is reading the first list and
/// then the second into what the first gave.
pub proof fn lemma_xattr_fold_add(init: XattrView, a: Seq<FieldView>, b: Seq<FieldView>)
    ensures
        xattr_fold(init, a + b) == match xattr_fold(init, a) {
            Some(mid) => xattr_fold(mid, b),
            None => None,
        },
    decreases b.len(),
{
    if b.len() == 0 {
        assert(a + b =~= a);
    } else {
        assert((a + b).drop_last() =~= a + b.drop_last());
        assert((a + b).last() == b.last());
        lemma_xattr_fold_add(init, a, b.drop_last());
    }
}

/// The same for a stat record.
pub proof fn lemma_stat_fold_add(init: StatView, a: Seq<FieldView>, b: Seq<FieldView>)
    ensures
        stat_fold(init, a + b) == match stat_fold(init, a) {
            Some(mid) => stat_fold(mid, b),
            None => None,
        },
    decreases b.len(),
{
    if b.len() == 0 {
        assert(a + b =~= a);
    } else {
        assert((a + b).drop_last() =~= a + b.drop_last());
        assert((a + b).last() == b.last());
        lemma_stat_fold_add(init, a, b.drop_last());
    }
}

/// The same for a packet.
pub proof fn lemma_packet_fold_add(init: PacketView, a: Seq<FieldView>, b: Seq<FieldView>)
    ensures
        packet_fold(init, a + b) == match packet_fold(init, a) {
            Some(mid) => packet_fold(mid, b),
            None => None,
        },
    decreases b.len(),
{
    if b.len() == 0 {
        assert(a + b =~= a);
    } else {
        assert((a + b).drop_last() =~= a + b.drop_last());
        assert((a + b).last() == b.last());
        lemma_packet_fold_add(init, a, b.drop_last());
    }
}

/// Reading a single field is applying it.
pub proof fn lemma_fold_single(f: FieldView)
    ensures
        forall|x: XattrView| #[trigger] xattr_fold(x, seq![f]) == xattr_apply(x, f),
        forall|s: StatView| #[trigger] stat_fold(s, seq![f]) == stat_apply(s, f),
        forall|p: PacketView| #[trigger] packet_fold(p, seq![f]) == packet_apply(p, f),
{
    assert(seq![f].drop_last() =~= Seq::<FieldView>::empty());
    assert(seq![f].last() == f);
    assert forall|x: XattrView| #[trigger] xattr_fold(x, seq![f]) == xattr_apply(x, f) by {
        assert(xattr_fold(x, seq![f].drop_last()) == Some(x));
    }
    assert forall|s: StatView| #[trigger] stat_fold(s, seq![f]) == stat_apply(s, f) by {
        assert(stat_fold(s, seq![f].drop_last()) == Some(s));
    }
    assert forall|p: PacketView| #[trigger] packet_fold(p, seq![f]) == packet_apply(p, f) by {
        assert(packet_fold(p, seq![f].drop_last()) == Some(p));
    }
}

/// The fields of an extended attribute are valid and are read back as the
/// attribute.
pub proof fn lemma_xattr_roundtrip(x: XattrView)
    requires
        encodable_xattr(x),
    ensures
        all_valid(xattr_fields(x), 0),
        parse_xattr(fields_bytes(xattr_fields(x))) == Some(x),
{
    let e: XattrView = (Seq::empty(), Seq::empty());
    let name = encode_utf8(x.0);
    let a = opt_bytes(1, name);
    let b = opt_bytes(2, x.1);
    let mid: XattrView = (x.0, Seq::empty());
    vstd::utf8::encode_utf8_decode_utf8(x.0);
    vstd::utf8::encode_utf8_valid_utf8(x.0);
    if name.len() == 0 {
        lemma_utf8_empty(x.0);
    } else {
        lemma_fold_single(a[0]);
    }
    assert(xattr_fold(e, a) == Some(mid));
    if x.1.len() == 0 {
        assert(x.1 =~= Seq::<u8>::empty());
    } else {
        lemma_fold_single(b[0]);
    }
    assert(xattr_fold(mid, b) == Some(x));
    lemma_xattr_fold_add(e, a, b);
    lemma_all_valid_add(a, b, 0);
    lemma_fields_roundtrip(xattr_fields(x), 0, crate::packet::XATTR_DEPTH as nat);
}

/// The fields that carry extended attributes are valid, and reading them
/// adds the attributes to those that the record held.
pub proof fn lemma_xattrs_roundtrip(acc: StatView, xattrs: Seq<XattrView>)
    requires
        forall|i: int| 0 <= i < xattrs.len() ==> encodable_xattr(#[trigger] xattrs[i]),
    ensures
        all_valid(xattrs_fields(xattrs), crate::packet::XATTR_FIELD),
        stat_fold(acc, xattrs_fields(xattrs)) == Some(
            StatView { xattrs: acc.xattrs + xattrs, ..acc },
        ),
    decreases xattrs.len(),
{
    let fields = xattrs_fields(xattrs);
    if xattrs.len() == 0 {
        assert(acc.xattrs + xattrs =~= acc.xattrs);
    } else {
        let front = xattrs.drop_last();
        lemma_xattrs_roundtrip(acc, front);
        lemma_xattr_roundtrip(xattrs.last());
        assert(fields.drop_last() =~= xattrs_fields(front));
        assert((acc.xattrs + front).push(xattrs.last()) =~= acc.xattrs + xattrs);
        assert forall|i: int| 0 <= i < fields.len() implies valid_field(
            #[trigger] fields[i],
            crate::packet::XATTR_FIELD,
        ) by {
            if i < front.len() {
                assert(fields[i] == xattrs_fields(front)[i]);
            }
        }
    }
}

/// The fields of a stat record are valid and are read back as the record.
pub proof fn lemma_stat_fields_roundtrip(s: StatView)
    requires
        encodable_stat(s),
    ensures
        all_valid(stat_fields(s), crate::packet::XATTR_FIELD),
        stat_fold(empty_stat(), stat_fields(s)) == Some(s),
{
    let e = empty_stat();
    let p1 = opt_bytes(1, encode_utf8(s.path));
    let p2 = opt_varint(2, s.mode as u64);
    let p3 = opt_varint(3, s.uid as u64);
    let p4 = opt_varint(4, s.gid as u64);
    let p5 = opt_varint(5, unsigned_of(s.size));
    let p6 = opt_varint(6, unsigned_of(s.mod_time));
    let p7 = opt_bytes(7, encode_utf8(s.linkname));
    let p8 = opt_varint(8, unsigned_of(s.devmajor));
    let p9 = opt_varint(9, unsigned_of(s.devminor));
    let p10 = xattrs_fields(s.xattrs);
    let s1 = StatView { path: s.path, ..e };
    let s2 = StatView { mode: s.mode, ..s1 };
    let s3 = StatView { uid: s.uid, ..s2 };
    let s4 = StatView { gid: s.gid, ..s3 };
    let s5 = StatView { size: s.size, ..s4 };
    let s6 = StatView { mod_time: s.mod_time, ..s5 };
    let s7 = StatView { linkname: s.linkname, ..s6 };
    let s8 = StatView { devmajor: s.devmajor, ..s7 };
    let s9 = StatView { devminor: s.devminor, ..s8 };
    vstd::utf8::encode_utf8_decode_utf8(s.path);
    vstd::utf8::encode_utf8_valid_utf8(s.path);
    vstd::utf8::encode_utf8_decode_utf8(s.linkname);
    vstd::utf8::encode_utf8_valid_utf8(s.linkname);
    lemma_numbers_roundtrip(s.mode, s.size);
    lemma_numbers_roundtrip(s.uid, s.mod_time);
    lemma_numbers_roundtrip(s.gid, s.devmajor);
    lemma_numbers_roundtrip(0, s.devminor);
    assert(stat_fold(e, p1) == Some(s1)) by {
        if p1.len() == 0 {
            lemma_utf8_empty(s.path);
        } else {
            lemma_fold_single(p1[0]);
        }
    }
    assert(stat_fold(s1, p2) == Some(s2)) by {
        if p2.len() > 0 {
            lemma_fold_single(p2[0]);
        }
    }
    assert(stat_fold(s2, p3) == Some(s3)) by {
        if p3.len() > 0 {
            lemma_fold_single(p3[0]);
        }
    }
    assert(stat_fold(s3, p4) == Some(s4)) by {
        if p4.len() > 0 {
            lemma_fold_single(p4[0]);
        }
    }
    assert(stat_fold(s4, p5) == Some(s5)) by {
        if p5.len() > 0 {
            lemma_fold_single(p5[0]);
        }
    }
    assert(stat_fold(s5, p6) == Some(s6)) by {
        if p6.len() > 0 {
            lemma_fold_single(p6[0]);
        }
    }
    assert(stat_fold(s6, p7) == Some(s7)) by {
        if p7.len() == 0 {
            lemma_utf8_empty(s.linkname);
        } else {
            lemma_fold_single(p7[0]);
        }
    }
    assert(stat_fold(s7, p8) == Some(s8)) by {
        if p8.len() > 0 {
            lemma_fold_single(p8[0]);
        }
    }
    assert(stat_fold(s8, p9) == Some(s9)) by {
        if p9.len() > 0 {
            lemma_fold_single(p9[0]);
        }
    }
    lemma_xattrs_roundtrip(s9, s.xattrs);
    assert(s9.xattrs + s.xattrs =~= s.xattrs);
    assert(StatView { xattrs: s9.xattrs + s.xattrs, ..s9 } == s);
    let a2 = p1 + p2;
    let a3 = a2 + p3;
    let a4 = a3 + p4;
    let a5 = a4 + p5;
    let a6 = a5 + p6;
    let a7 = a6 + p7;
    let a8 = a7 + p8;
    let a9 = a8 + p9;
    lemma_stat_fold_add(e, p1, p2);
    lemma_stat_fold_add(e, a2, p3);
    lemma_stat_fold_add(e, a3, p4);
    lemma_stat_fold_add(e, a4, p5);
    lemma_stat_fold_add(e, a5, p6);
    lemma_stat_fold_add(e, a6, p7);
    lemma_stat_fold_add(e, a7, p8);
    lemma_stat_fold_add(e, a8, p9);
    lemma_stat_fold_add(e, a9, p10);
    lemma_all_valid_add(p1, p2, crate::packet::XATTR_FIELD);
    lemma_all_valid_add(a2, p3, crate::packet::XATTR_FIELD);
    lemma_all_valid_add(a3, p4, crate::packet::XATTR_FIELD);
    lemma_all_valid_add(a4, p5, crate::packet::XATTR_FIELD);
    lemma_all_valid_add(a5, p6, crate::packet::XATTR_FIELD);
    lemma_all_valid_add(a6, p7, crate::packet::XATTR_FIELD);
    lemma_all_valid_add(a7, p8, crate::packet::XATTR_FIELD);
    lemma_all_valid_add(a8, p9, crate::packet::XATTR_FIELD);
    lemma_all_valid_add(a9, p10, crate::packet::XATTR_FIELD);
}

/// The bytes of a stat record are read back as the record.
pub proof fn lemma_stat_roundtrip(s: StatView)
    requires
        encodable_stat(s),
    ensures
        parse_stat_into(empty_stat(), stat_bytes(s)) == Some(s),
{
    lemma_stat_fields_roundtrip(s);
    lemma_fields_roundtrip(
        stat_fields(s),
        crate::packet::XATTR_FIELD,
        crate::packet::STAT_DEPTH as nat,
    );
}

/// The bytes of a packet are read back as the packet.
pub proof fn lemma_packet_roundtrip(p: PacketView)
    requires
        encodable(p),
    ensures
        parse_packet(packet_bytes(p)) == Some(p),
{
    let e = empty_packet();
    let p1 = opt_varint(1, type_code(p.packet_type));
    let p2 = opt_stat(p.stat);
    let p3 = opt_varint(3, p.id as u64);
    let p4 = opt_bytes(4, p.data);
    let s1 = PacketView { packet_type: p.packet_type, ..e };
    let s2 = PacketView { stat: p.stat, ..s1 };
    let s3 = PacketView { id: p.id, ..s2 };
    lemma_numbers_roundtrip(p.id, 0);
    assert(low32(type_code(p.packet_type)) == type_code(p.packet_type));
    assert(type_of_code(type_code(p.packet_type)) == Some(p.packet_type));
    assert(packet_fold(e, p1) == Some(s1)) by {
        if p1.len() > 0 {
            lemma_fold_single(p1[0]);
        }
    }
    assert(packet_fold(s1, p2) == Some(s2)) by {
        match p.stat {
            Some(s) => {
                lemma_fold_single(p2[0]);
                lemma_stat_roundtrip(s);
            },
            None => {},
        }
    }
    assert(packet_fold(s2, p3) == Some(s3)) by {
        if p3.len() > 0 {
            lemma_fold_single(p3[0]);
        }
    }
    assert(packet_fold(s3, p4) == Some(p)) by {
        if p4.len() > 0 {
            lemma_fold_single(p4[0]);
        } else {
            assert(p.data =~= Seq::<u8>::empty());
        }
    }
    let a2 = p1 + p2;
    let a3 = a2 + p3;
    lemma_packet_fold_add(e, p1, p2);
    lemma_packet_fold_add(e, a2, p3);
    lemma_packet_fold_add(e, a3, p4);
    lemma_all_valid_add(p1, p2, 0);
    lemma_all_valid_add(a2, p3, 0);
    lemma_all_valid_add(a3, p4, 0);
    lemma_fields_roundtrip(packet_fields(p), 0, crate::wire::NESTING_LIMIT as nat);
}

/// A stat record that is written and read back holds the same mapping of
/// extended attributes.
pub proof fn lemma_xattr_map_roundtrip(s: StatView)
    requires
        encodable_stat(s),
    ensures
        parse_stat_into(empty_stat(), stat_bytes(s)) matches Some(back) && xattr_map(back.xattrs)
            == xattr_map(s.xattrs),
{
    lemma_stat_roundtrip(s);
}

/// A packet that is encoded and framed is read back, whatever follows the
/// frame: the frame gives the bytes of the packet, and these give the
/// packet.
pub proof fn lemma_framed_packet_roundtrip(p: PacketView, rest: Seq<u8>, limit: u32)
    requires
        encodable(p),
        packet_bytes(p).len() <= limit,
    ensures
        parse_frame(framed(packet_bytes(p)) + rest, limit) == (FrameView::Message {
            payload: packet_bytes(p),
            consumed: 5 + packet_bytes(p).len(),
        }),
        parse_packet(packet_bytes(p)) == Some(p),
{
    lemma_frame_roundtrip(packet_bytes(p), rest, limit);
    lemma_packet_roundtrip(p);
}

} // verus!
