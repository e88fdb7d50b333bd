//! What holds of every file-sync call: one sentinel that ends the listing,
//! directories of size zero, one empty packet at the end of each file, and
//! the closing packet before the trailers.

use crate::diffcopy::{
    chunks, data_packet, file_packets, fin_packet, lemma_chunk_sizes,
    listing_events, request_events, sentinel_packet, serve, stat_of_item, stat_packet, DiffCopy,
    Event, FileStream, Outcome, Phase, Served,
};
use crate::frame::{framed, lemma_frame_roundtrip};
use crate::packet::{packet_bytes, PacketView};
use crate::packet_laws::{encodable, lemma_packet_roundtrip};
use crate::filemode::{lemma_type_bits_mapped, GO_MODE_DIR};
use crate::packet::PacketType;
use crate::walker::ItemView;
use vstd::prelude::*;

verus! {

/// A stat packet without a stat record.
pub open spec fn is_sentinel(e: Event) -> bool {
    e matches Event::Packet(p) && p.packet_type == PacketType::Stat && p.stat is None
}

/// A stat packet, with or without a stat record.
pub open spec fn is_stat(e: Event) -> bool {
    e matches Event::Packet(p) && p.packet_type == PacketType::Stat
}

/// The trailers that close a call.
pub open spec fn is_trailers(e: Event) -> bool {
    e is Trailers
}

/// A stat record that marks a directory reports the size zero.
pub open spec fn directory_size_is_zero(e: Event) -> bool {
    e matches Event::Packet(p) ==> (p.stat matches Some(s) ==> (s.mode & GO_MODE_DIR != 0 ==> s.size
        == 0))
}

/// The bytes of a list of pieces, one after the other.
pub open spec fn concat(pieces: Seq<Seq<u8>>) -> Seq<u8>
    decreases pieces.len(),
{
    if pieces.len() == 0 {
        Seq::empty()
    } else {
        pieces[0] + concat(pieces.skip(1))
    }
}

/// The stat record of a directory reports the size zero, and only the
/// stat record of a directory has the directory bit.
pub proof fn lemma_stat_of_directory(item: ItemView)
    ensures
        stat_of_item(item).mode & GO_MODE_DIR != 0 ==> stat_of_item(item).size == 0,
        stat_of_item(item).mode & GO_MODE_DIR != 0 <==> crate::walker::mode_is_dir(item.mode),
{
    lemma_type_bits_mapped(item.mode);
}

/// The events of a listing: at place `k` below the number of entries the
/// stat packet of entry `k` under the id `k`, and at the end the sentinel.
pub proof fn lemma_listing_events(items: Seq<ItemView>, k: int)
    requires
        0 <= k <= items.len(),
    ensures
        listing_events(items).len() == items.len() + 1,
        k < items.len() ==> listing_events(items)[k] == Event::Packet(
            stat_packet(k as u32, items[k]),
        ),
        k == items.len() ==> listing_events(items)[k] == Event::Packet(sentinel_packet()),
{
}

/// While requests are served and when the call is done, the engine has
/// handed out exactly one stat packet without a stat record, directly
/// after the stat packets of the entries, and no stat packet after it.
pub proof fn lemma_one_sentinel(engine: DiffCopy, k: int)
    requires
        engine.wf(),
        engine.phase == Phase::Serving || engine.phase == Phase::Done,
        0 <= k < engine.trace@.len(),
    ensures
        engine.items@.len() < engine.trace@.len(),
        is_sentinel(engine.trace@[engine.items@.len() as int]),
        k != engine.items@.len() ==> !is_sentinel(engine.trace@[k]),
        k < engine.items@.len() ==> is_stat(engine.trace@[k]),
        k > engine.items@.len() ==> !is_stat(engine.trace@[k]),
{
    let t = engine.trace@;
    let n = engine.items@.len() as int;
    let items = engine.listed();
    lemma_listing_events(items, n);
    assert(t[n] == t.take(n + 1)[n]);
    if k < n {
        lemma_listing_events(items, k);
        assert(t[k] == t.take(n + 1)[k]);
    } else if k > n {
        if engine.phase == Phase::Serving {
            assert(t[k] == t.skip(n + 1)[k - (n + 1)]);
        } else if k < t.len() - 2 {
            assert(t[k] == t.subrange(n + 1, t.len() - 2)[k - (n + 1)]);
        } else {
            assert(t[k] == t.skip(t.len() - 2)[k - (t.len() - 2)]);
        }
    }
}

/// When the call is done, the last two things that the engine handed out
/// are the packet that ends the transfer and the trailers of success, and
/// it handed out no trailers before.
pub proof fn lemma_fin_before_trailers(engine: DiffCopy, k: int)
    requires
        engine.wf(),
        engine.phase == Phase::Done,
        0 <= k < engine.trace@.len(),
    ensures
        engine.trace@.len() >= 2,
        engine.trace@[engine.trace@.len() - 2] == Event::Packet(fin_packet()),
        is_trailers(engine.trace@[engine.trace@.len() - 1]),
        k < engine.trace@.len() - 1 ==> !is_trailers(engine.trace@[k]),
{
    let t = engine.trace@;
    let n = engine.items@.len() as int;
    let items = engine.listed();
    let tail = t.skip(t.len() - 2);
    assert(tail[0] == t[t.len() - 2]);
    assert(tail[1] == t[t.len() - 1]);
    if k <= n {
        lemma_listing_events(items, k);
        assert(t[k] == t.take(n + 1)[k]);
    } else if k < t.len() - 2 {
        assert(t[k] == t.subrange(n + 1, t.len() - 2)[k - (n + 1)]);
    }
}

/// While requests are served and when the call is done, every stat record
/// that the engine handed out and that marks a directory reports the size
/// zero.
pub proof fn lemma_directory_sizes(engine: DiffCopy, k: int)
    requires
        engine.wf(),
        engine.phase == Phase::Serving || engine.phase == Phase::Done,
        0 <= k < engine.trace@.len(),
    ensures
        directory_size_is_zero(engine.trace@[k]),
{
    let t = engine.trace@;
    let n = engine.items@.len() as int;
    let items = engine.listed();
    if k <= n {
        lemma_listing_events(items, k);
        assert(t[k] == t.take(n + 1)[k]);
        if k < n {
            lemma_stat_of_directory(items[k]);
        }
    } else if engine.phase == Phase::Serving {
        assert(t[k] == t.skip(n + 1)[k - (n + 1)]);
    } else if k < t.len() - 2 {
        assert(t[k] == t.subrange(n + 1, t.len() - 2)[k - (n + 1)]);
    } else {
        assert(t[k] == t.skip(t.len() - 2)[k - (t.len() - 2)]);
    }
}

/// The pieces of a file are together the file.
pub proof fn lemma_chunks_are_the_file(content: Seq<u8>)
    ensures
        concat(chunks(content)) == content,
    decreases content.len(),
{
    if content.len() == 0 {
        assert(content =~= Seq::<u8>::empty());
    } else if content.len() <= crate::diffcopy::CHUNK_SIZE {
        assert(chunks(content).skip(1) =~= Seq::<Seq<u8>>::empty());
        assert(concat(chunks(content).skip(1)) =~= Seq::<u8>::empty());
        assert(content + Seq::<u8>::empty() =~= content);
    } else {
        let rest = content.skip(crate::diffcopy::CHUNK_SIZE as int);
        lemma_chunks_are_the_file(rest);
        assert(chunks(content).skip(1) =~= chunks(rest));
        assert(content.take(crate::diffcopy::CHUNK_SIZE as int) + rest =~= content);
    }
}

/// The packets of a file are data packets under the id of the request;
/// the last of them is empty, and no other is.
pub proof fn lemma_one_empty_packet_ends_a_file(id: u32, content: Seq<u8>, k: int)
    requires
        0 <= k < file_packets(id, content).len(),
    ensures
        file_packets(id, content).len() == chunks(content).len() + 1,
        file_packets(id, content)[k].packet_type == PacketType::Data,
        file_packets(id, content)[k].id == id,
        file_packets(id, content)[k].stat is None,
        k == chunks(content).len() <==> file_packets(id, content)[k].data.len() == 0,
        k < chunks(content).len() ==> file_packets(id, content)[k] == data_packet(
            id,
            chunks(content)[k],
        ),
{
    if k < chunks(content).len() {
        lemma_chunk_sizes(content, k);
    }
}

/// Once the end of a file is marked, the packets that went out for it are
/// data packets under the id of the request; the last of them is empty,
/// and no other is.
pub proof fn lemma_one_empty_packet_ends_a_stream(stream: FileStream, k: int)
    requires
        stream.wf(),
        stream.closed,
        0 <= k < stream.sent().len(),
    ensures
        stream.sent().len() == stream.pieces@.len() + 1,
        stream.sent()[k].packet_type == PacketType::Data,
        stream.sent()[k].id == stream.id,
        stream.sent()[k].stat is None,
        k == stream.sent().len() - 1 <==> stream.sent()[k].data.len() == 0,
{
    if k < stream.pieces@.len() {
        assert(stream.sent()[k] == data_packet(stream.id, stream.pieces@[k]));
    }
}

/// The packet that asks for the file listed under `id`.
pub open spec fn request_packet(id: u32) -> PacketView {
    PacketView { packet_type: PacketType::Req, stat: None, id, data: Seq::empty() }
}

/// The frames of a list of requests, one after the other.
pub open spec fn request_frames(ids: Seq<u32>) -> Seq<u8>
    decreases ids.len(),
{
    if ids.len() == 0 {
        Seq::empty()
    } else {
        framed(packet_bytes(request_packet(ids[0]))) + request_frames(ids.skip(1))
    }
}

/// What a list of requests asks the caller to do: for each request in
/// order, to send its file if the id is in the file table.
pub open spec fn requests_events(table: Map<u32, Seq<char>>, ids: Seq<u32>) -> Seq<Event>
    decreases ids.len(),
{
    if ids.len() == 0 {
        Seq::empty()
    } else {
        request_events(table, ids[0]) + requests_events(table, ids.skip(1))
    }
}

/// The packets that a list of requests is answered with, where `content`
/// gives what each file holds: for each request in order whose id is in
/// the file table, the packets of its file.
pub open spec fn runs_of_requests(
    table: Map<u32, Seq<char>>,
    ids: Seq<u32>,
    content: spec_fn(Seq<char>) -> Seq<u8>,
) -> Seq<PacketView>
    decreases ids.len(),
{
    if ids.len() == 0 {
        Seq::empty()
    } else {
        (if table.contains_key(ids[0]) {
            file_packets(ids[0], content(table[ids[0]]))
        } else {
            Seq::empty()
        }) + runs_of_requests(table, ids.skip(1), content)
    }
}

/// The packets that events stand for, where `content` gives what each
/// file holds: a packet for itself, a file for the packets of that file,
/// and trailers for none.
pub open spec fn packets_of_events(events: Seq<Event>, content: spec_fn(Seq<char>) -> Seq<u8>) -> Seq<
    PacketView,
>
    decreases events.len(),
{
    if events.len() == 0 {
        Seq::empty()
    } else {
        (match events[0] {
            Event::Packet(p) => seq![p],
            Event::File { id, path } => file_packets(id, content(path)),
            Event::Trailers { .. } => Seq::empty(),
        }) + packets_of_events(events.skip(1), content)
    }
}

/// Inbound bytes that hold any number of requests and then the packet
/// that ends the transfer ask for the file of each request in order and
/// end the transfer, under every frame limit from eight bytes on; what
/// follows the last frame is not read.
pub proof fn lemma_requests_then_fin(
    table: Map<u32, Seq<char>>,
    limit: u32,
    ids: Seq<u32>,
    rest: Seq<u8>,
)
    requires
        limit >= 8,
    ensures
        serve(table, limit, request_frames(ids) + framed(packet_bytes(fin_packet())) + rest)
            == (Served {
            events: requests_events(table, ids),
            rest,
            outcome: Outcome::Finished,
        }),
    decreases ids.len(),
{
    let fin = framed(packet_bytes(fin_packet()));
    let buf = request_frames(ids) + fin + rest;
    lemma_requests_are_short(0);
    if ids.len() == 0 {
        assert(buf =~= fin + rest);
        lemma_frame_roundtrip(packet_bytes(fin_packet()), rest, limit);
        assert(encodable(fin_packet()));
        lemma_packet_roundtrip(fin_packet());
        assert((fin + rest).skip((5 + packet_bytes(fin_packet()).len()) as int) =~= rest);
    } else {
        let first = request_packet(ids[0]);
        let head = framed(packet_bytes(first));
        lemma_requests_are_short(ids[0]);
        let tail = request_frames(ids.skip(1)) + fin + rest;
        assert(buf =~= head + tail);
        lemma_frame_roundtrip(packet_bytes(first), tail, limit);
        assert(encodable(first));
        lemma_packet_roundtrip(first);
        assert((head + tail).skip((5 + packet_bytes(first).len()) as int) =~= tail);
        lemma_requests_then_fin(table, limit, ids.skip(1), rest);
    }
}

/// The files that a list of requests asks for stand for one run of
/// packets for each request whose id is in the file table, in the order of
/// the requests: no run is cut short or mixed with another.
pub proof fn lemma_requests_give_runs(
    table: Map<u32, Seq<char>>,
    ids: Seq<u32>,
    content: spec_fn(Seq<char>) -> Seq<u8>,
)
    ensures
        packets_of_events(requests_events(table, ids), content) == runs_of_requests(
            table,
            ids,
            content,
        ),
    decreases ids.len(),
{
    if ids.len() > 0 {
        let first = request_events(table, ids[0]);
        let later = requests_events(table, ids.skip(1));
        lemma_requests_give_runs(table, ids.skip(1), content);
        lemma_packets_of_events_add(first, later, content);
        if table.contains_key(ids[0]) {
            let path = table[ids[0]];
            assert(first.skip(1) =~= Seq::<Event>::empty());
            assert(first[0] == Event::File { id: ids[0], path });
            assert(packets_of_events(first.skip(1), content) =~= Seq::<PacketView>::empty());
            assert(file_packets(ids[0], content(path)) + Seq::<PacketView>::empty()
                =~= file_packets(ids[0], content(path)));
            assert(packets_of_events(first, content) =~= file_packets(ids[0], content(path)));
        } else {
            assert(first =~= Seq::<Event>::empty());
        }
    }
}

/// The packets of two lists of events, one after the other, are the
/// packets of the first followed by those of the second.
pub proof fn lemma_packets_of_events_add(
    a: Seq<Event>,
    b: Seq<Event>,
    content: spec_fn(Seq<char>) -> Seq<u8>,
)
    ensures
        packets_of_events(a + b, content) == packets_of_events(a, content) + packets_of_events(
            b,
            content,
        ),
    decreases a.len(),
{
    if a.len() == 0 {
        assert(a + b =~= b);
        assert(packets_of_events(a, content) + packets_of_events(b, content)
            =~= packets_of_events(b, content));
    } else {
        lemma_packets_of_events_add(a.skip(1), b, content);
        assert((a + b).skip(1) =~= a.skip(1) + b);
        assert((a + b)[0] == a[0]);
        let head = match a[0] {
            Event::Packet(p) => seq![p],
            Event::File { id, path } => file_packets(id, content(path)),
            Event::Trailers { .. } => Seq::<PacketView>::empty(),
        };
        assert(head + (packets_of_events(a.skip(1), content) + packets_of_events(b, content))
            =~= (head + packets_of_events(a.skip(1), content)) + packets_of_events(b, content));
    }
}

/// A request takes at most eight bytes, and the packet that ends the
/// transfer two: every limit from eight on admits their frames.
pub proof fn lemma_requests_are_short(id: u32)
    ensures
        packet_bytes(request_packet(id)).len() <= 8,
        packet_bytes(fin_packet()).len() == 2,
{
    let kind = crate::packet::opt_varint(1, 1);
    let number = crate::packet::opt_varint(3, id as u64);
    let fields = crate::packet::packet_fields(request_packet(id));
    assert(fields =~= kind + number);
    crate::wire::lemma_pow128_values();
    crate::wire::lemma_varint_len(id as nat, 5);
    reveal_with_fuel(crate::wire::varint_bytes, 2);
    assert(crate::wire::field_bytes(kind[0]).len() == 2);
    assert(fields.skip(1) =~= number);
    if id == 0 {
        assert(crate::wire::fields_bytes(fields.skip(1)) =~= Seq::<u8>::empty());
    } else {
        assert(number.skip(1) =~= Seq::<crate::wire::FieldView>::empty());
        assert(crate::wire::fields_bytes(number.skip(1)) =~= Seq::<u8>::empty());
        assert(crate::wire::field_bytes(number[0]).len() <= 6);
        assert(crate::wire::fields_bytes(number).len() <= 6);
    }
    let last = crate::packet::packet_fields(fin_packet());
    assert(last =~= crate::packet::opt_varint(1, 3));
    assert(last.skip(1) =~= Seq::<crate::wire::FieldView>::empty());
    assert(crate::wire::fields_bytes(last.skip(1)) =~= Seq::<u8>::empty());
    assert(crate::wire::field_bytes(last[0]).len() == 2);
}

} // verus!
