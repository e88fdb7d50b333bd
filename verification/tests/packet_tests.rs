use buildkit_client::error::Error;
use buildkit_client::frame::{frame_message, next_frame, Unframed};
use buildkit_client::packet::{
    to_low32, to_signed, to_unsigned, Packet, PacketType, Stat, Xattr,
};
use buildkit_client::wire::{
    decode_fields, decode_varint, encode_fields, encode_varint, Field, Value,
};
use bytes::{Buf, BufMut};
use prost::encoding::{DecodeContext, WireType};
use prost::DecodeError;
use std::collections::HashMap;

fn sample_stat() -> Stat {
    Stat {
        path: "app/ünï.txt".to_string(),
        mode: 0x800001ed,
        uid: 1000,
        gid: 0,
        size: 1 << 30,
        mod_time: -5,
        linkname: "target".to_string(),
        devmajor: 8,
        devminor: i64::MIN,
        xattrs: vec![
            Xattr { name: "user.a".to_string(), value: vec![1, 2, 3] },
            Xattr { name: "".to_string(), value: Vec::new() },
            Xattr { name: "user.a".to_string(), value: vec![9] },
        ],
    }
}

fn prost_stat_bytes(s: &Stat) -> Vec<u8> {
    let mut buf = Vec::new();
    if !s.path.is_empty() {
        prost::encoding::string::encode(1, &s.path, &mut buf);
    }
    if s.mode != 0 {
        prost::encoding::uint32::encode(2, &s.mode, &mut buf);
    }
    if s.uid != 0 {
        prost::encoding::uint32::encode(3, &s.uid, &mut buf);
    }
    if s.gid != 0 {
        prost::encoding::uint32::encode(4, &s.gid, &mut buf);
    }
    if s.size != 0 {
        prost::encoding::int64::encode(5, &s.size, &mut buf);
    }
    if s.mod_time != 0 {
        prost::encoding::int64::encode(6, &s.mod_time, &mut buf);
    }
    if !s.linkname.is_empty() {
        prost::encoding::string::encode(7, &s.linkname, &mut buf);
    }
    if s.devmajor != 0 {
        prost::encoding::int64::encode(8, &s.devmajor, &mut buf);
    }
    if s.devminor != 0 {
        prost::encoding::int64::encode(9, &s.devminor, &mut buf);
    }
    for x in &s.xattrs {
        let mut entry = Vec::new();
        if !x.name.is_empty() {
            prost::encoding::string::encode(1, &x.name, &mut entry);
        }
        if !x.value.is_empty() {
            prost::encoding::bytes::encode(2, &x.value, &mut entry);
        }
        prost::encoding::encode_key(10, WireType::LengthDelimited, &mut buf);
        prost::encoding::encode_varint(entry.len() as u64, &mut buf);
        buf.extend_from_slice(&entry);
    }
    buf
}

fn prost_packet_bytes(p: &Packet) -> Vec<u8> {
    let mut buf = Vec::new();
    let code = p.packet_type.code() as i32;
    if code != 0 {
        prost::encoding::int32::encode(1, &code, &mut buf);
    }
    if let Some(s) = &p.stat {
        let inner = prost_stat_bytes(s);
        prost::encoding::encode_key(2, WireType::LengthDelimited, &mut buf);
        prost::encoding::encode_varint(inner.len() as u64, &mut buf);
        buf.extend_from_slice(&inner);
    }
    if p.id != 0 {
        prost::encoding::uint32::encode(3, &p.id, &mut buf);
    }
    if !p.data.is_empty() {
        prost::encoding::bytes::encode(4, &p.data, &mut buf);
    }
    buf
}

fn samples() -> Vec<Packet> {
    vec![
        Packet { packet_type: PacketType::Stat, stat: None, id: 0, data: Vec::new() },
        Packet { packet_type: PacketType::Stat, stat: Some(Stat::new()), id: 0, data: Vec::new() },
        Packet { packet_type: PacketType::Stat, stat: Some(sample_stat()), id: 7, data: Vec::new() },
        Packet { packet_type: PacketType::Req, stat: None, id: u32::MAX, data: Vec::new() },
        Packet { packet_type: PacketType::Data, stat: None, id: 300, data: vec![0xff; 200] },
        Packet { packet_type: PacketType::Fin, stat: None, id: 0, data: Vec::new() },
    ]
}

#[test]
fn varint_bytes_are_exact() {
    let cases: Vec<(u64, Vec<u8>)> = vec![
        (0, vec![0x00]),
        (1, vec![0x01]),
        (127, vec![0x7f]),
        (128, vec![0x80, 0x01]),
        (300, vec![0xac, 0x02]),
        (16384, vec![0x80, 0x80, 0x01]),
        (u64::MAX, vec![0xff, 0xff, 0xff, 0xff, 0xff, 0xff, 0xff, 0xff, 0xff, 0x01]),
    ];
    for (value, bytes) in cases {
        let mut out = vec![0xaa];
        encode_varint(value, &mut out);
        assert_eq!(out[0], 0xaa);
        assert_eq!(&out[1..], &bytes[..]);
        let mut reference = Vec::new();
        prost::encoding::encode_varint(value, &mut reference);
        assert_eq!(reference, bytes);
        assert_eq!(decode_varint(&out, 1), Some((value, out.len())));
    }
}

#[test]
fn varint_reading_stops_where_the_format_says() {
    assert_eq!(decode_varint(&[], 0), None);
    assert_eq!(decode_varint(&[0x80], 0), None);
    assert_eq!(decode_varint(&[0x80, 0x00], 0), Some((0, 2)));
    assert_eq!(decode_varint(&[0x05, 0x80], 0), Some((5, 1)));
    assert_eq!(decode_varint(&[0x05, 0x07], 1), Some((7, 2)));
    assert_eq!(decode_varint(&[0x05], 1), None);
    assert_eq!(decode_varint(&[0x05], 2), None);
    let too_long = [0x80u8; 11];
    assert_eq!(decode_varint(&too_long, 0), None);
    let overflow = [0xff, 0xff, 0xff, 0xff, 0xff, 0xff, 0xff, 0xff, 0xff, 0x02];
    assert_eq!(decode_varint(&overflow, 0), None);
    let mut slice: &[u8] = &overflow;
    assert!(prost::encoding::decode_varint(&mut slice).is_err());
}

#[test]
fn fields_are_written_and_read_back() {
    let fields = vec![
        Field { number: 1, value: Value::Varint(150) },
        Field { number: 2, value: Value::Bytes(b"testing".to_vec()) },
        Field { number: 0x1fffffff, value: Value::Varint(0) },
        Field { number: 16, value: Value::Bytes(Vec::new()) },
    ];
    let bytes = encode_fields(&fields);
    assert_eq!(&bytes[..3], &[0x08, 0x96, 0x01]);
    assert_eq!(&bytes[3..12], &[0x12, 0x07, b't', b'e', b's', b't', b'i', b'n', b'g']);
    assert_eq!(decode_fields(&bytes, 0, 100), Some(fields));
}

#[test]
fn fixed_width_fields_and_groups_are_read_as_items() {
    let mut bytes = vec![0x09, 1, 2, 3, 4, 5, 6, 7, 8];
    bytes.extend([0x08, 0x03]);
    bytes.extend([0x15, 1, 2, 3, 4]);
    bytes.extend([0x2b, 0x08, 0x01, 0x33, 0x34, 0x2c]);
    let fields = vec![
        Field { number: 1, value: Value::Fixed64(vec![1, 2, 3, 4, 5, 6, 7, 8]) },
        Field { number: 1, value: Value::Varint(3) },
        Field { number: 2, value: Value::Fixed32(vec![1, 2, 3, 4]) },
        Field { number: 5, value: Value::Group },
    ];
    assert_eq!(decode_fields(&bytes, 0, 100), Some(fields.clone()));
    let written = encode_fields(&fields);
    assert_eq!(&written[..16], &bytes[..16]);
    assert_eq!(&written[16..], &[0x2b, 0x2c]);
    assert_eq!(decode_fields(&written, 0, 100), Some(fields));
}

#[test]
fn a_forced_field_is_read_as_bytes_whatever_its_wire_type() {
    let bytes = vec![0x50, 0x02, 0x61, 0x62, 0x55, 0x01, 0x63, 0x08, 0x02];
    assert_eq!(
        decode_fields(&bytes, 10, 100),
        Some(vec![
            Field { number: 10, value: Value::Bytes(vec![0x61, 0x62]) },
            Field { number: 10, value: Value::Bytes(vec![0x63]) },
            Field { number: 1, value: Value::Varint(2) },
        ])
    );
    assert_eq!(
        decode_fields(&[0x50, 0x02], 0, 100),
        Some(vec![Field { number: 10, value: Value::Varint(2) }])
    );
    assert_eq!(decode_fields(&[0x50, 0x02], 10, 100), None);
}

fn nested_groups(n: usize) -> Vec<u8> {
    let mut bytes = vec![0x7b; n];
    bytes.extend(vec![0x7c; n]);
    bytes
}

#[test]
fn groups_are_passed_over_down_to_the_nesting_limit() {
    assert!(decode_fields(&nested_groups(1), 0, 100).is_some());
    assert!(decode_fields(&nested_groups(100), 0, 100).is_some());
    assert_eq!(decode_fields(&nested_groups(101), 0, 100), None);
    assert_eq!(decode_fields(&nested_groups(1), 0, 0), None);
    assert_eq!(decode_fields(&[0x2b, 0x34], 0, 100), None);
    assert_eq!(decode_fields(&[0x2b, 0x08], 0, 100), None);
    assert_eq!(decode_fields(&[0x2b, 0x0c, 0x2c], 0, 100), None);
    for n in [1usize, 2, 99, 100, 101, 102] {
        let bytes = nested_groups(n);
        let mut rest: &[u8] = &bytes[1..];
        let reference = prost::encoding::skip_field(
            WireType::StartGroup,
            15,
            &mut rest,
            prost::encoding::DecodeContext::default(),
        );
        assert_eq!(decode_fields(&bytes, 0, 100).is_some(), reference.is_ok(), "{n}");
    }
}

#[test]
fn malformed_fields_are_refused() {
    assert_eq!(decode_fields(&[], 0, 100), Some(Vec::new()));
    assert_eq!(decode_fields(&[0x00, 0x01], 0, 100), None);
    assert_eq!(decode_fields(&[0x0b], 0, 100), None);
    assert_eq!(decode_fields(&[0x0c], 0, 100), None);
    assert_eq!(decode_fields(&[0x0e, 0x00], 0, 100), None);
    assert_eq!(decode_fields(&[0x0f, 0x00], 0, 100), None);
    assert_eq!(decode_fields(&[0x08], 0, 100), None);
    assert_eq!(decode_fields(&[0x12, 0x03, 0x01, 0x02], 0, 100), None);
    assert_eq!(decode_fields(&[0x09, 1, 2, 3], 0, 100), None);
    assert_eq!(decode_fields(&[0x0d, 1, 2, 3], 0, 100), None);
    assert_eq!(decode_fields(&[0x80, 0x80, 0x80, 0x80, 0x10, 0x00], 0, 100), None);
}

#[test]
fn packets_are_encoded_as_prost_encodes_their_fields() {
    for p in samples() {
        assert_eq!(p.encode(), prost_packet_bytes(&p), "{:?}", p);
    }
    assert_eq!(sample_stat().encode(), prost_stat_bytes(&sample_stat()));
}

#[test]
fn packet_bytes_are_exact() {
    let sentinel = Packet { packet_type: PacketType::Stat, stat: None, id: 0, data: Vec::new() };
    assert_eq!(sentinel.encode(), Vec::<u8>::new());
    let fin = Packet { packet_type: PacketType::Fin, stat: None, id: 0, data: Vec::new() };
    assert_eq!(fin.encode(), vec![0x08, 0x03]);
    let req = Packet { packet_type: PacketType::Req, stat: None, id: 5, data: Vec::new() };
    assert_eq!(req.encode(), vec![0x08, 0x01, 0x18, 0x05]);
    let data = Packet { packet_type: PacketType::Data, stat: None, id: 1, data: vec![0x61] };
    assert_eq!(data.encode(), vec![0x08, 0x02, 0x18, 0x01, 0x22, 0x01, 0x61]);
    let stat = Packet {
        packet_type: PacketType::Stat,
        stat: Some(Stat { path: "a".to_string(), mode: 0o644, size: 3, ..Stat::new() }),
        id: 2,
        data: Vec::new(),
    };
    assert_eq!(
        stat.encode(),
        vec![0x12, 0x08, 0x0a, 0x01, 0x61, 0x10, 0xa4, 0x03, 0x28, 0x03, 0x18, 0x02]
    );
}

#[test]
fn decoding_an_encoded_packet_gives_the_packet() {
    for p in samples() {
        assert_eq!(Packet::decode(&p.encode()), Ok(p));
    }
}

#[test]
fn framed_packet_round_trip() {
    for p in samples() {
        let frame = frame_message(&p.encode()).unwrap();
        match next_frame(&frame, u32::MAX) {
            Unframed::Message { payload, consumed } => {
                assert_eq!(consumed, frame.len());
                assert_eq!(Packet::decode(&payload), Ok(p));
            }
            other => panic!("unexpected {:?}", other),
        }
    }
}

#[test]
fn unknown_packet_type_is_a_decode_error() {
    let expected = Err(Error::Decode { message_type: "Packet".to_string() });
    assert_eq!(Packet::decode(&[0x08, 0x04]), expected);
    assert_eq!(Packet::decode(&[0x08, 0xff, 0x01]), expected);
    assert_eq!(Packet::decode(&[0x08]), expected);
    assert_eq!(Packet::decode(&[0x0a, 0x00]), expected);
    assert_eq!(Packet::decode(&[0x22, 0x05, 0x61]), expected);
}

#[test]
fn invalid_utf8_in_a_path_is_a_decode_error() {
    let bad = vec![0x12, 0x03, 0x0a, 0x01, 0xff];
    assert_eq!(
        Packet::decode(&bad),
        Err(Error::Decode { message_type: "Packet".to_string() })
    );
    let good = vec![0x12, 0x04, 0x0a, 0x02, 0xc3, 0xa4];
    let packet = Packet::decode(&good).unwrap();
    assert_eq!(packet.stat.unwrap().path, "ä");
}

#[test]
fn later_fields_replace_earlier_ones_and_unknown_fields_are_ignored() {
    let bytes = vec![0x18, 0x01, 0x18, 0x09, 0x28, 0x07, 0x32, 0x01, 0x00, 0x08, 0x02, 0x08, 0x01];
    let packet = Packet::decode(&bytes).unwrap();
    assert_eq!(
        packet,
        Packet { packet_type: PacketType::Req, stat: None, id: 9, data: Vec::new() }
    );
}

#[test]
fn a_second_stat_record_is_read_into_the_first() {
    let bytes = vec![0x12, 0x03, 0x0a, 0x01, 0x61, 0x12, 0x02, 0x10, 0x07];
    let packet = Packet::decode(&bytes).unwrap();
    let stat = packet.stat.unwrap();
    assert_eq!(stat.path, "a");
    assert_eq!(stat.mode, 7);
}

#[test]
fn stat_merge_keeps_what_the_bytes_do_not_name() {
    let base = Stat { path: "keep".to_string(), uid: 4, ..Stat::new() };
    let merged = base.merge(&[0x10, 0x01]).unwrap();
    assert_eq!(merged, Stat { path: "keep".to_string(), uid: 4, mode: 1, ..Stat::new() });
    assert_eq!(Stat::new().merge(&[0x10]), None);
    assert_eq!(Stat::new().merge(&[0x0a, 0x01, 0x80]), None);
    assert_eq!(Stat::new().merge(&[0x08, 0x01]), None);
}

#[test]
fn xattr_entries_are_read_back_in_order() {
    let stat = sample_stat();
    let back = Stat::new().merge(&stat.encode()).unwrap();
    assert_eq!(back, stat);
    assert_eq!(back.xattrs.len(), 3);
    assert_eq!(Xattr::decode(&stat.xattrs[0].encode()), Some(stat.xattrs[0].clone()));
    assert_eq!(Xattr::decode(&[0x0a, 0x01, 0xff]), None);
    assert_eq!(Xattr::decode(&[0x10, 0x01]), None);
}

#[test]
fn integers_convert_as_two_complement() {
    assert_eq!(to_unsigned(0), 0);
    assert_eq!(to_unsigned(-1), u64::MAX);
    assert_eq!(to_unsigned(i64::MIN), 1 << 63);
    assert_eq!(to_unsigned(i64::MAX), (1 << 63) - 1);
    assert_eq!(to_signed(u64::MAX), -1);
    assert_eq!(to_signed(1 << 63), i64::MIN);
    assert_eq!(to_signed(5), 5);
    assert_eq!(to_low32(0x1_0000_0005), 5);
    assert_eq!(to_low32(0xffff_ffff), u32::MAX);
    assert_eq!(PacketType::from_code(2), Some(PacketType::Data));
    assert_eq!(PacketType::from_code(4), None);
}

#[test]
fn frames_are_exact() {
    assert_eq!(frame_message(&[]).unwrap(), vec![0, 0, 0, 0, 0]);
    assert_eq!(frame_message(&[7, 8]).unwrap(), vec![0, 0, 0, 0, 2, 7, 8]);
    let long = vec![1u8; 0x01020304];
    let frame = frame_message(&long).unwrap();
    assert_eq!(&frame[..5], &[0, 1, 2, 3, 4]);
    assert_eq!(frame.len(), 5 + 0x01020304);
}

#[test]
fn reading_frames_tells_partial_from_broken() {
    assert_eq!(next_frame(&[], 100), Unframed::Incomplete);
    assert_eq!(next_frame(&[0, 0, 0, 0], 100), Unframed::Incomplete);
    assert_eq!(next_frame(&[1, 0, 0, 0], 100), Unframed::Incomplete);
    assert_eq!(next_frame(&[1, 0, 0, 0, 0], 100), Unframed::Unsupported);
    assert_eq!(next_frame(&[0, 0, 0, 0, 3, 1, 2], 100), Unframed::Incomplete);
    assert_eq!(next_frame(&[0, 0, 0, 0, 101], 100), Unframed::TooLarge);
    assert_eq!(
        next_frame(&[0, 0, 0, 0, 2, 1, 2, 9, 9], 100),
        Unframed::Message { payload: vec![1, 2], consumed: 7 }
    );
    assert_eq!(
        next_frame(&[0, 0, 0, 0, 0], 0),
        Unframed::Message { payload: Vec::new(), consumed: 5 }
    );
}

#[derive(Debug, Default, Clone, PartialEq)]
struct RefStat {
    path: String,
    mode: u32,
    uid: u32,
    gid: u32,
    size: i64,
    mod_time: i64,
    linkname: String,
    devmajor: i64,
    devminor: i64,
    xattrs: HashMap<String, Vec<u8>>,
}

impl prost::Message for RefStat {
    fn encode_raw(&self, _buf: &mut impl BufMut) {}

    fn merge_field(
        &mut self,
        tag: u32,
        wire_type: WireType,
        buf: &mut impl Buf,
        ctx: DecodeContext,
    ) -> Result<(), DecodeError> {
        match tag {
            1 => prost::encoding::string::merge(wire_type, &mut self.path, buf, ctx),
            2 => prost::encoding::uint32::merge(wire_type, &mut self.mode, buf, ctx),
            3 => prost::encoding::uint32::merge(wire_type, &mut self.uid, buf, ctx),
            4 => prost::encoding::uint32::merge(wire_type, &mut self.gid, buf, ctx),
            5 => prost::encoding::int64::merge(wire_type, &mut self.size, buf, ctx),
            6 => prost::encoding::int64::merge(wire_type, &mut self.mod_time, buf, ctx),
            7 => prost::encoding::string::merge(wire_type, &mut self.linkname, buf, ctx),
            8 => prost::encoding::int64::merge(wire_type, &mut self.devmajor, buf, ctx),
            9 => prost::encoding::int64::merge(wire_type, &mut self.devminor, buf, ctx),
            10 => prost::encoding::hash_map::merge(
                prost::encoding::string::merge,
                prost::encoding::bytes::merge,
                &mut self.xattrs,
                buf,
                ctx,
            ),
            _ => prost::encoding::skip_field(wire_type, tag, buf, ctx),
        }
    }

    fn encoded_len(&self) -> usize {
        0
    }

    fn clear(&mut self) {}
}

#[derive(Debug, Default, Clone, PartialEq)]
struct RefPacket {
    kind: i32,
    stat: Option<RefStat>,
    id: u32,
    data: Vec<u8>,
}

impl prost::Message for RefPacket {
    fn encode_raw(&self, _buf: &mut impl BufMut) {}

    fn merge_field(
        &mut self,
        tag: u32,
        wire_type: WireType,
        buf: &mut impl Buf,
        ctx: DecodeContext,
    ) -> Result<(), DecodeError> {
        match tag {
            1 => prost::encoding::int32::merge(wire_type, &mut self.kind, buf, ctx),
            2 => prost::encoding::message::merge(
                wire_type,
                self.stat.get_or_insert_with(Default::default),
                buf,
                ctx,
            ),
            3 => prost::encoding::uint32::merge(wire_type, &mut self.id, buf, ctx),
            4 => prost::encoding::bytes::merge(wire_type, &mut self.data, buf, ctx),
            _ => prost::encoding::skip_field(wire_type, tag, buf, ctx),
        }
    }

    fn encoded_len(&self) -> usize {
        0
    }

    fn clear(&mut self) {}
}

fn agrees_with_prost(bytes: &[u8]) {
    let reference = <RefPacket as prost::Message>::decode(bytes);
    let ours = Packet::decode(bytes);
    match reference {
        Err(_) => assert!(ours.is_err(), "{bytes:?}"),
        Ok(r) if !(0..=3).contains(&r.kind) => assert!(ours.is_err(), "{bytes:?}"),
        Ok(r) => {
            let p = ours.unwrap_or_else(|_| panic!("{bytes:?}"));
            assert_eq!(p.packet_type.code() as i32, r.kind, "{bytes:?}");
            assert_eq!(p.id, r.id);
            assert_eq!(p.data, r.data);
            assert_eq!(p.stat.is_some(), r.stat.is_some());
            if let (Some(s), Some(rs)) = (p.stat, r.stat) {
                let xattrs: HashMap<String, Vec<u8>> =
                    s.xattrs.iter().map(|x| (x.name.clone(), x.value.clone())).collect();
                let back = RefStat {
                    path: s.path,
                    mode: s.mode,
                    uid: s.uid,
                    gid: s.gid,
                    size: s.size,
                    mod_time: s.mod_time,
                    linkname: s.linkname,
                    devmajor: s.devmajor,
                    devminor: s.devminor,
                    xattrs,
                };
                assert_eq!(back, rs, "{bytes:?}");
            }
        }
    }
}

#[test]
fn decoding_agrees_with_prost_on_well_formed_and_malformed_bytes() {
    for p in samples() {
        agrees_with_prost(&p.encode());
    }
    let cases: Vec<Vec<u8>> = vec![
        vec![],
        vec![0x08, 0x04],
        vec![0x08, 0x81, 0x80, 0x80, 0x80, 0x10],
        vec![0x08, 0xff, 0xff, 0xff, 0xff, 0x0f],
        vec![0x0d, 1, 2, 3, 4],
        vec![0x09, 1, 2, 3, 4, 5, 6, 7, 8],
        vec![0x1d, 1, 2, 3, 4],
        vec![0x2d, 1, 2, 3, 4, 0x18, 0x07],
        vec![0x29, 1, 2, 3, 4, 5, 6, 7, 8, 0x08, 0x01],
        vec![0x2b, 0x08, 0x01, 0x2c, 0x18, 0x05],
        vec![0x2b, 0x33, 0x34, 0x2c],
        vec![0x2b, 0x34],
        vec![0x2b],
        vec![0x2c],
        vec![0x1b, 0x1c],
        vec![0x12, 0x00],
        vec![0x12, 0x02, 0x10, 0x07, 0x12, 0x03, 0x0a, 0x01, 0x61],
        vec![0x12, 0x02, 0x15, 0x01],
        vec![0x12, 0x05, 0x15, 1, 2, 3, 4],
        vec![0x12, 0x05, 0x5d, 1, 2, 3, 4],
        vec![0x12, 0x04, 0x5b, 0x08, 0x01, 0x5c],
        vec![0x12, 0x04, 0x52, 0x02, 0x0a, 0x00],
        vec![0x12, 0x05, 0x50, 0x03, 0x0a, 0x01, 0x6b],
        vec![0x12, 0x03, 0x50, 0x01, 0x08],
        vec![0x12, 0x04, 0x54, 0x02, 0x10, 0x01],
        vec![0x12, 0x07, 0x52, 0x05, 0x0a, 0x01, 0x6b, 0x18, 0x01],
        vec![0x12, 0x08, 0x52, 0x06, 0x0a, 0x01, 0x6b, 0x12, 0x01, 0xff],
        vec![0x12, 0x05, 0x52, 0x03, 0x0a, 0x01, 0xff],
        vec![0x12, 0x0a, 0x52, 0x03, 0x0a, 0x01, 0x61, 0x52, 0x03, 0x0a, 0x01, 0x61],
        vec![0x12, 0x03, 0x0a, 0x05, 0x61],
        vec![0x12, 0x02, 0x0a, 0x05, 0x61, 0x62, 0x63, 0x64, 0x65],
        vec![0x22, 0x02, 0x01],
        vec![0x20, 0x01],
        vec![0x18, 0xff, 0xff, 0xff, 0xff, 0x1f],
        vec![0x80, 0x80, 0x80, 0x80, 0x10, 0x00],
        vec![0xf8, 0xff, 0xff, 0xff, 0x0f, 0x01],
        vec![0x00],
        vec![0x06, 0x00],
    ];
    for bytes in &cases {
        agrees_with_prost(bytes);
    }
    let mut deep = vec![0x12, 102];
    deep.extend(vec![0x2b; 51]);
    deep.extend(vec![0x2c; 51]);
    agrees_with_prost(&deep);
    for n in [97usize, 98, 99, 100, 101] {
        let groups = nested_groups(n);
        let mut in_stat = Vec::new();
        prost::encoding::encode_key(2, WireType::LengthDelimited, &mut in_stat);
        prost::encoding::encode_varint(groups.len() as u64, &mut in_stat);
        in_stat.extend(&groups);
        agrees_with_prost(&in_stat);
        let mut entry = Vec::new();
        prost::encoding::encode_key(10, WireType::LengthDelimited, &mut entry);
        prost::encoding::encode_varint(groups.len() as u64, &mut entry);
        entry.extend(&groups);
        let mut in_entry = Vec::new();
        prost::encoding::encode_key(2, WireType::LengthDelimited, &mut in_entry);
        prost::encoding::encode_varint(entry.len() as u64, &mut in_entry);
        in_entry.extend(&entry);
        agrees_with_prost(&in_entry);
    }
    let limits: Vec<bool> = [98usize, 99, 100]
        .iter()
        .map(|n| {
            let groups = nested_groups(*n);
            let mut in_stat = vec![0x12];
            prost::encoding::encode_varint(groups.len() as u64, &mut in_stat);
            in_stat.extend(&groups);
            Packet::decode(&in_stat).is_ok()
        })
        .collect();
    assert_eq!(limits, vec![true, true, false]);
    let mut nested = vec![0x2b; 100];
    nested.extend(vec![0x2c; 100]);
    agrees_with_prost(&nested);
    nested.insert(0, 0x2b);
    nested.push(0x2c);
    agrees_with_prost(&nested);
}
