//! The file-sync call: what the request headers ask for, the packets that
//! list a context, the packets that carry a file, and the state machine
//! that drives one call from the listing to the closing handshake.

use crate::error::{Error, STATUS_OK};
use crate::filemode::{go_mode_of, unix_mode_to_go_filemode};
use crate::frame::{frame_message, framed, next_frame, parse_frame, FrameView, Unframed};
use crate::packet::{
    packet_bytes, parse_packet, Packet, PacketType, PacketView, Stat, StatView, XattrView,
};
use crate::text::{ends_with, is_suffix, same_text, views};
use crate::walker::{
    filter_view, include_closure, is_dir, is_regular, item_views, mode_is_dir, mode_is_regular,
    walk, walk_tree, Entry, IncludeSet, ItemView, WalkItem,
};
use crate::wire::append_bytes;
use std::collections::HashMap;
use vstd::prelude::*;

verus! {

/// The most bytes of a file that one packet carries.
pub const CHUNK_SIZE: usize = 32768;

/// The most bytes that an inbound frame may announce, unless a call is
/// given another limit: four times 1024 times 1024.
pub const MAX_INBOUND_FRAME: u32 = 4194304;

/// The request headers of a file-sync call.
#[derive(Debug, Clone, PartialEq, Eq)]
pub struct Headers {
    /// The value of `dir-name`, if the header is there.
    pub dir_name: Option<String>,
    /// The values of `followpaths`, in order.
    pub followpaths: Vec<String>,
}

/// What a call asks for.
#[derive(Debug, Clone, PartialEq, Eq)]
pub enum Plan {
    /// Only the Dockerfile of this name.
    DockerfileOnly { name: String },
    /// The context: all of it, or what the filter admits.
    FullContext { filter: Option<IncludeSet> },
}

/// Whether the headers ask for the Dockerfile alone.
pub open spec fn wants_dockerfile_only(headers: Headers) -> bool {
    headers.dir_name matches Some(d) && d@ == "dockerfile"@
}

/// The name of the Dockerfile that a call asks for: the first of the
/// followed paths if it ends in `.Dockerfile`, else `Dockerfile`.
pub open spec fn dockerfile_name_of(followpaths: Seq<String>) -> Seq<char> {
    if followpaths.len() > 0 && is_suffix(".Dockerfile"@, followpaths[0]@) {
        followpaths[0]@
    } else {
        "Dockerfile"@
    }
}

/// What the headers of a call ask for.
pub fn interpret_headers(headers: &Headers) -> (r: Plan)
    ensures
        wants_dockerfile_only(*headers) ==> (r matches Plan::DockerfileOnly { name } && name@
            == dockerfile_name_of(headers.followpaths@)),
        !wants_dockerfile_only(*headers) && headers.followpaths@.len() == 0 ==> (
        r matches Plan::FullContext { filter: None }),
        !wants_dockerfile_only(*headers) && headers.followpaths@.len() > 0 ==> (
        r matches Plan::FullContext { filter: Some(f) } && f@ == include_closure(
            views(headers.followpaths@),
        )),
{
    let only_dockerfile = match &headers.dir_name {
        Some(d) => same_text(d.as_str(), "dockerfile"),
        None => false,
    };
    if only_dockerfile {
        let name = if headers.followpaths.len() > 0 && ends_with(
            headers.followpaths[0].as_str(),
            ".Dockerfile",
        ) {
            headers.followpaths[0].clone()
        } else {
            String::from_str("Dockerfile")
        };
        Plan::DockerfileOnly { name }
    } else if headers.followpaths.len() == 0 {
        Plan::FullContext { filter: None }
    } else {
        Plan::FullContext { filter: Some(IncludeSet::from_followpaths(&headers.followpaths)) }
    }
}

/// The size that a stat record reports for a length in bytes.
pub open spec fn reported_size(mode: u32, size: u64) -> i64 {
    if mode_is_dir(mode) {
        0
    } else if size <= i64::MAX {
        size as i64
    } else {
        i64::MAX
    }
}

/// The stat record of a yielded entry: its path, its mode in the external
/// bitset, its size, or zero for a directory, and nothing else.
pub open spec fn stat_of_item(item: ItemView) -> StatView {
    StatView {
        path: item.path,
        mode: go_mode_of(item.mode),
        uid: 0,
        gid: 0,
        size: reported_size(item.mode, item.size),
        mod_time: 0,
        linkname: Seq::empty(),
        devmajor: 0,
        devminor: 0,
        xattrs: Seq::empty(),
    }
}

/// The packet that lists an entry under an id.
pub open spec fn stat_packet(id: u32, item: ItemView) -> PacketView {
    PacketView {
        packet_type: PacketType::Stat,
        stat: Some(stat_of_item(item)),
        id,
        data: Seq::empty(),
    }
}

/// The packet that ends the listing: a stat packet without a stat record.
pub open spec fn sentinel_packet() -> PacketView {
    PacketView { packet_type: PacketType::Stat, stat: None, id: 0, data: Seq::empty() }
}

/// The packet that ends the transfer.
pub open spec fn fin_packet() -> PacketView {
    PacketView { packet_type: PacketType::Fin, stat: None, id: 0, data: Seq::empty() }
}

/// The packet that carries a chunk of the file with the given id.
pub open spec fn data_packet(id: u32, chunk: Seq<u8>) -> PacketView {
    PacketView { packet_type: PacketType::Data, stat: None, id, data: chunk }
}

/// The packets that list the entries of a walk: one for each, numbered
/// from zero in the order of the walk.
pub open spec fn listing(items: Seq<ItemView>) -> Seq<PacketView> {
    Seq::new(items.len(), |i: int| stat_packet(i as u32, items[i]))
}

/// The pieces of a file: each of the full chunk size but the last, none
/// empty.
pub open spec fn chunks(content: Seq<u8>) -> Seq<Seq<u8>>
    decreases content.len(),
{
    if content.len() == 0 {
        Seq::empty()
    } else if content.len() <= CHUNK_SIZE {
        seq![content]
    } else {
        seq![content.take(CHUNK_SIZE as int)] + chunks(content.skip(CHUNK_SIZE as int))
    }
}

/// The packets that carry a file: one for each piece, then an empty one
/// that ends the file.
pub open spec fn file_packets(id: u32, content: Seq<u8>) -> Seq<PacketView> {
    chunks(content).map_values(|c: Seq<u8>| data_packet(id, c)).push(
        data_packet(id, Seq::empty()),
    )
}

/// The packets of a list as plain values.
pub open spec fn packet_views(packets: Seq<Packet>) -> Seq<PacketView> {
    packets.map_values(|p: Packet| p@)
}

/// The stat record of a yielded entry.
pub fn item_stat(item: &WalkItem) -> (r: Stat)
    ensures
        r@ == stat_of_item(item@),
{
    let size: i64 = if is_dir(item.mode) {
        0
    } else if item.size <= i64::MAX as u64 {
        item.size as i64
    } else {
        i64::MAX
    };
    let r = Stat {
        path: item.path.clone(),
        mode: unix_mode_to_go_filemode(item.mode),
        uid: 0,
        gid: 0,
        size,
        mod_time: 0,
        linkname: String::new(),
        devmajor: 0,
        devminor: 0,
        xattrs: Vec::new(),
    };
    assert(r@.xattrs =~= Seq::<XattrView>::empty());
    r
}

/// The packet that lists an entry under an id.
pub fn make_stat_packet(id: u32, item: &WalkItem) -> (r: Packet)
    ensures
        r@ == stat_packet(id, item@),
{
    Packet { packet_type: PacketType::Stat, stat: Some(item_stat(item)), id, data: Vec::new() }
}

/// The packet that ends the listing.
pub fn make_sentinel() -> (r: Packet)
    ensures
        r@ == sentinel_packet(),
{
    Packet { packet_type: PacketType::Stat, stat: None, id: 0, data: Vec::new() }
}

/// The packet that ends the transfer.
pub fn make_fin() -> (r: Packet)
    ensures
        r@ == fin_packet(),
{
    Packet { packet_type: PacketType::Fin, stat: None, id: 0, data: Vec::new() }
}

/// The packet that carries a chunk of a file.
pub fn make_data_packet(id: u32, chunk: &[u8]) -> (r: Packet)
    ensures
        r@ == data_packet(id, chunk@),
{
    Packet {
        packet_type: PacketType::Data,
        stat: None,
        id,
        data: vstd::slice::slice_to_vec(chunk),
    }
}

/// The data packets of a list of pieces, under one id.
pub open spec fn data_packets(id: u32, pieces: Seq<Seq<u8>>) -> Seq<PacketView> {
    pieces.map_values(|c: Seq<u8>| data_packet(id, c))
}

/// The data packets that carry the given bytes of the file `id`: one for
/// each piece of at most the chunk size.
pub fn chunk_packets(id: u32, content: &[u8]) -> (r: Vec<Packet>)
    ensures
        packet_views(r@) == data_packets(id, chunks(content@)),
{
    let mut out: Vec<Packet> = Vec::new();
    let mut pos: usize = 0;
    proof {
        assert(content@.skip(0) =~= content@);
        assert(packet_views(out@) =~= Seq::<PacketView>::empty());
        assert(Seq::<PacketView>::empty() + data_packets(id, chunks(content@)) =~= data_packets(
            id,
            chunks(content@),
        ));
    }
    while pos < content.len()
        invariant
            pos <= content.len(),
            packet_views(out@) + data_packets(id, chunks(content@.skip(pos as int)))
                == data_packets(id, chunks(content@)),
        decreases content.len() - pos,
    {
        let ghost rest = content@.skip(pos as int);
        let ghost before = packet_views(out@);
        let end: usize = if content.len() - pos <= CHUNK_SIZE {
            content.len()
        } else {
            pos + CHUNK_SIZE
        };
        let piece = vstd::slice::slice_subrange(content, pos, end);
        out.push(make_data_packet(id, piece));
        proof {
            let later = data_packets(id, chunks(content@.skip(end as int)));
            assert(packet_views(out@) =~= before.push(data_packet(id, piece@)));
            if rest.len() <= CHUNK_SIZE {
                assert(piece@ =~= rest);
                assert(content@.skip(end as int) =~= Seq::<u8>::empty());
                assert(data_packets(id, chunks(rest)) =~= seq![data_packet(id, piece@)]);
                assert(later =~= Seq::<PacketView>::empty());
            } else {
                assert(piece@ =~= rest.take(CHUNK_SIZE as int));
                assert(rest.skip(CHUNK_SIZE as int) =~= content@.skip(end as int));
                assert(data_packets(id, chunks(rest)) =~= seq![data_packet(id, piece@)] + later);
            }
            assert(before.push(data_packet(id, piece@)) + later =~= before + (seq![
                data_packet(id, piece@),
            ] + later));
        }
        pos = end;
    }
    proof {
        assert(content@.skip(pos as int) =~= Seq::<u8>::empty());
        assert(packet_views(out@) =~= data_packets(id, chunks(content@)));
    }
    out
}

/// The packet that ends the file `id`: a data packet without data.
pub fn make_eof_packet(id: u32) -> (r: Packet)
    ensures
        r@ == data_packet(id, Seq::empty()),
{
    Packet { packet_type: PacketType::Data, stat: None, id, data: Vec::new() }
}

/// The packets that carry a file in answer to a request for `id`.
pub fn file_data_packets(id: u32, content: &[u8]) -> (r: Vec<Packet>)
    ensures
        packet_views(r@) == file_packets(id, content@),
{
    let mut out = chunk_packets(id, content);
    let ghost before = packet_views(out@);
    out.push(make_eof_packet(id));
    assert(packet_views(out@) =~= before.push(data_packet(id, Seq::empty())));
    out
}

/// The packets of one file while it is being read: what was read so far
/// goes out as it comes, and the end of the file is marked once.
pub struct FileStream {
    /// The id of the request that is answered.
    pub id: u32,
    /// Whether the end of the file was marked.
    pub closed: bool,
    /// The pieces that went out so far.
    pub pieces: Ghost<Seq<Seq<u8>>>,
}

impl FileStream {
    /// The packets that went out so far: one for each piece, and behind
    /// them the empty one if the end of the file was marked.
    pub open spec fn sent(&self) -> Seq<PacketView> {
        if self.closed {
            data_packets(self.id, self.pieces@).push(data_packet(self.id, Seq::empty()))
        } else {
            data_packets(self.id, self.pieces@)
        }
    }

    /// No piece that went out is empty or longer than the chunk size.
    pub open spec fn wf(&self) -> bool {
        forall|k: int|
            0 <= k < self.pieces@.len() ==> 0 < (#[trigger] self.pieces@[k]).len() <= CHUNK_SIZE
    }

    /// The stream that answers a request for `id`; nothing went out yet.
    pub fn new(id: u32) -> (r: Self)
        ensures
            r.wf(),
            r.id == id,
            !r.closed,
            r.pieces@ == Seq::<Seq<u8>>::empty(),
    {
        FileStream { id, closed: false, pieces: Ghost(Seq::empty()) }
    }

    /// Whether the end of the file was marked.
    pub fn is_closed(&self) -> (r: bool)
        ensures
            r == self.closed,
    {
        self.closed
    }

    /// Takes the bytes that one read of the file gave: they go out in
    /// pieces of at most the chunk size. A read that gave nothing is the
    /// end of the file: the empty packet goes out and the stream is
    /// closed. A closed stream gives nothing more.
    pub fn push(&mut self, bytes: &[u8]) -> (r: Vec<Packet>)
        ensures
            old(self).wf() ==> final(self).wf(),
            final(self).id == old(self).id,
            final(self).sent() == old(self).sent() + packet_views(r@),
            old(self).closed ==> *final(self) == *old(self) && r@.len() == 0,
            !old(self).closed && bytes@.len() == 0 ==> final(self).closed && final(self).pieces@
                == old(self).pieces@ && packet_views(r@) == seq![
                data_packet(old(self).id, Seq::empty()),
            ],
            !old(self).closed && bytes@.len() > 0 ==> !final(self).closed && final(self).pieces@
                == old(self).pieces@ + chunks(bytes@) && packet_views(r@) == data_packets(
                old(self).id,
                chunks(bytes@),
            ),
    {
        if self.closed {
            let out: Vec<Packet> = Vec::new();
            assert(self.sent() + packet_views(out@) =~= self.sent());
            return out;
        }
        if bytes.len() == 0 {
            let mut out: Vec<Packet> = Vec::new();
            out.push(make_eof_packet(self.id));
            assert(packet_views(out@) =~= seq![data_packet(self.id, Seq::empty())]);
            self.closed = true;
            assert(self.sent() =~= old(self).sent() + packet_views(out@));
            return out;
        }
        let out = chunk_packets(self.id, bytes);
        proof {
            let before = self.pieces@;
            let more = chunks(bytes@);
            if old(self).wf() {
                assert forall|k: int| 0 <= k < (before + more).len() implies 0 < (#[trigger] (
                before + more)[k]).len() <= CHUNK_SIZE by {
                    if k < before.len() {
                        assert((before + more)[k] == before[k]);
                    } else {
                        lemma_chunk_sizes(bytes@, k - before.len());
                        assert((before + more)[k] == more[k - before.len()]);
                    }
                }
            }
            assert(data_packets(self.id, before + more) =~= data_packets(self.id, before)
                + data_packets(self.id, more));
        }
        self.pieces = Ghost(self.pieces@ + chunks(bytes@));
        out
    }
}

/// No piece of a file is empty or longer than the chunk size.
pub proof fn lemma_chunk_sizes(content: Seq<u8>, k: int)
    requires
        0 <= k < chunks(content).len(),
    ensures
        0 < chunks(content)[k].len() <= CHUNK_SIZE,
    decreases content.len(),
{
    if content.len() > CHUNK_SIZE {
        if k > 0 {
            let rest = content.skip(CHUNK_SIZE as int);
            lemma_chunk_sizes(rest, k - 1);
            assert(chunks(content)[k] == chunks(rest)[k - 1]);
        }
    }
}

/// The frame that carries a packet. Fails with a protocol error exactly
/// where the packet's bytes are more than one frame can hold.
pub fn frame_packet(packet: &Packet) -> (r: Result<Vec<u8>, Error>)
    ensures
        packet_bytes(packet@).len() <= u32::MAX ==> r is Ok && r.unwrap()@ == framed(
            packet_bytes(packet@),
        ),
        packet_bytes(packet@).len() > u32::MAX ==> (r matches Err(Error::Protocol(m)) && m@
            == "message is too long for one frame"@),
{
    let payload = packet.encode();
    frame_message(payload.as_slice())
}

/// Where a call stands between two steps. The listing and its sentinel go
/// out within the step that starts the call, and the closing handshake
/// within the step that ends it, so a call is never seen in between.
#[derive(Debug, Clone, Copy, PartialEq, Eq, Structural)]
pub enum Phase {
    /// Nothing was sent yet.
    Ready,
    /// The listing and its sentinel were sent; requests are answered.
    Serving,
    /// The closing handshake was sent.
    Done,
    /// The call was closed with an error.
    Failed,
}

/// What the engine hands out, as plain values.
pub ghost enum Event {
    /// A packet to send.
    Packet(PacketView),
    /// The contents of a file to send, as the packets of that file.
    File { id: u32, path: Seq<char> },
    /// The trailers that close the call.
    Trailers { status: u32, message: Seq<char> },
}

/// What the caller is to do, in the order given.
#[derive(Debug, Clone, PartialEq, Eq)]
pub enum Action {
    /// Send this packet.
    Send(Packet),
    /// Read the file at `path` and send it as the packets of file `id`.
    SendFile { id: u32, path: String },
    /// Close the call with these trailers.
    Trailers { status: u32, message: String },
}

impl View for Action {
    type V = Event;

    open spec fn view(&self) -> Event {
        match self {
            Action::Send(p) => Event::Packet(p@),
            Action::SendFile { id, path } => Event::File { id: *id, path: path@ },
            Action::Trailers { status, message } => Event::Trailers {
                status: *status,
                message: message@,
            },
        }
    }
}

/// The actions of a list as plain values.
pub open spec fn action_events(actions: Seq<Action>) -> Seq<Event> {
    actions.map_values(|a: Action| a@)
}

/// What one step of the engine gives back.
#[derive(Debug, Clone, PartialEq, Eq)]
pub struct Step {
    /// What the caller is to do, in order.
    pub actions: Vec<Action>,
    /// What went wrong in this step, if anything.
    pub report: Option<Error>,
}

/// What the file system says of one file.
#[derive(Debug, Clone, Copy, PartialEq, Eq)]
pub struct FileMeta {
    /// The POSIX mode, file type included.
    pub mode: u32,
    /// The length in bytes.
    pub size: u64,
}

/// The path of a file below the root.
pub open spec fn local_path(root: Seq<char>, path: Seq<char>) -> Seq<char> {
    root + seq!['/'] + path
}

/// The file table: the local path of the entry listed under `id`, if that
/// entry is a regular file.
pub open spec fn file_path_of(root: Seq<char>, items: Seq<ItemView>, id: u32) -> Option<
    Seq<char>,
> {
    if id < items.len() && mode_is_regular(items[id as int].mode) {
        Some(local_path(root, items[id as int].path))
    } else {
        None
    }
}

/// The file table of a listing: the ids of the listed regular files, each
/// with the local path of its file.
pub open spec fn file_table(root: Seq<char>, items: Seq<ItemView>) -> Map<u32, Seq<char>> {
    Map::new(
        |id: u32| file_path_of(root, items, id) is Some,
        |id: u32| file_path_of(root, items, id).unwrap(),
    )
}

/// A file table as plain values.
pub open spec fn table_view(files: Map<u32, String>) -> Map<u32, Seq<char>> {
    files.map_values(|path: String| path@)
}

/// The events of a listing: the stat packet of each entry, then the
/// sentinel.
pub open spec fn listing_events(items: Seq<ItemView>) -> Seq<Event> {
    listing(items).map_values(|p: PacketView| Event::Packet(p)).push(
        Event::Packet(sentinel_packet()),
    )
}

/// The closing handshake: the packet that ends the transfer, then the
/// trailers of success.
pub open spec fn closing_events() -> Seq<Event> {
    seq![
        Event::Packet(fin_packet()),
        Event::Trailers { status: STATUS_OK, message: Seq::empty() },
    ]
}

/// The trailers that close a call that failed with an error.
pub open spec fn failure_events(error: Error) -> Seq<Event> {
    seq![Event::Trailers { status: error.status_code(), message: error.message_text() }]
}

/// How reading the inbound bytes ended.
#[derive(Debug, Clone, Copy, PartialEq, Eq, Structural)]
pub enum Outcome {
    /// The bytes held no more whole frame: the transfer goes on.
    Continue,
    /// The daemon ended the transfer.
    Finished,
    /// A frame had a flag byte other than zero.
    Unsupported,
    /// A frame announced more bytes than the limit allows.
    TooLarge,
    /// A frame held no well-formed packet.
    Malformed,
}

/// What reading the inbound bytes gives.
pub ghost struct Served {
    /// The files to send, in the order of their requests.
    pub events: Seq<Event>,
    /// The bytes that were not read.
    pub rest: Seq<u8>,
    /// How the reading ended.
    pub outcome: Outcome,
}

/// What a request for `id` asks the caller to do: to send the file, if the
/// id is in the file table, and nothing otherwise.
pub open spec fn request_events(table: Map<u32, Seq<char>>, id: u32) -> Seq<Event> {
    if table.contains_key(id) {
        seq![Event::File { id, path: table[id] }]
    } else {
        Seq::empty()
    }
}

/// Reads the inbound bytes frame by frame: a request for a listed file
/// asks for that file, a packet that ends the transfer ends the reading,
/// any other packet is passed over; a frame that is not supported, too
/// large or malformed breaks the call.
pub open spec fn serve(table: Map<u32, Seq<char>>, limit: u32, buf: Seq<u8>) -> Served
    decreases buf.len(),
{
    match parse_frame(buf, limit) {
        FrameView::Incomplete => Served {
            events: Seq::empty(),
            rest: buf,
            outcome: Outcome::Continue,
        },
        FrameView::Unsupported => Served {
            events: Seq::empty(),
            rest: buf,
            outcome: Outcome::Unsupported,
        },
        FrameView::TooLarge => Served {
            events: Seq::empty(),
            rest: buf,
            outcome: Outcome::TooLarge,
        },
        FrameView::Message { payload, consumed } => {
            let after = buf.skip(consumed as int);
            match parse_packet(payload) {
                None => Served { events: Seq::empty(), rest: after, outcome: Outcome::Malformed },
                Some(p) => if p.packet_type == PacketType::Fin {
                    Served { events: Seq::empty(), rest: after, outcome: Outcome::Finished }
                } else {
                    let later = serve(table, limit, after);
                    if p.packet_type == PacketType::Req {
                        Served { events: request_events(table, p.id) + later.events, ..later }
                    } else {
                        later
                    }
                },
            }
        },
    }
}

/// The local path of a listed entry.
pub fn file_path(root: &str, path: &str) -> (r: String)
    ensures
        r@ == local_path(root@, path@),
{
    let mut out = String::from_str(root);
    proof {
        reveal_strlit("/");
        assert("/"@ =~= seq!['/']);
    }
    out.append("/");
    out.append(path);
    out
}

/// Reads the inbound bytes: the actions they ask for, how far the reading
/// came, and how it ended.
pub fn scan_inbound(files: &HashMap<u32, String>, limit: u32, buf: &[u8]) -> (r: (
    Vec<Action>,
    usize,
    Outcome,
))
    ensures
        action_events(r.0@) == serve(table_view(files@), limit, buf@).events,
        r.2 == serve(table_view(files@), limit, buf@).outcome,
        r.1 <= buf.len(),
        r.2 == Outcome::Continue ==> buf@.skip(r.1 as int) == serve(table_view(files@), limit,
            buf@,
        ).rest,
{
    broadcast use vstd::std_specs::hash::group_hash_axioms;

    let ghost all = table_view(files@);
    let mut actions: Vec<Action> = Vec::new();
    let mut pos: usize = 0;
    proof {
        assert(buf@.skip(0) =~= buf@);
        assert(action_events(actions@) =~= Seq::<Event>::empty());
        assert(Seq::<Event>::empty() + serve(all, limit, buf@).events =~= serve(all, limit,
            buf@,
        ).events);
    }
    loop
        invariant
            pos <= buf.len(),
            all == table_view(files@),
            serve(all, limit, buf@).events == action_events(actions@) + serve(all, limit,
                buf@.skip(pos as int),
            ).events,
            serve(all, limit, buf@).outcome == serve(all, limit,
                buf@.skip(pos as int),
            ).outcome,
            serve(all, limit, buf@).rest == serve(all, limit,
                buf@.skip(pos as int),
            ).rest,
        decreases buf.len() - pos,
    {
        let ghost here = buf@.skip(pos as int);
        let ghost done = action_events(actions@);
        let window = vstd::slice::slice_subrange(buf, pos, buf.len());
        assert(window@ =~= here);
        match next_frame(window, limit) {
            Unframed::Incomplete => {
                assert(done + Seq::<Event>::empty() =~= done);
                return (actions, pos, Outcome::Continue);
            },
            Unframed::Unsupported => {
                assert(done + Seq::<Event>::empty() =~= done);
                return (actions, pos, Outcome::Unsupported);
            },
            Unframed::TooLarge => {
                assert(done + Seq::<Event>::empty() =~= done);
                return (actions, pos, Outcome::TooLarge);
            },
            Unframed::Message { payload, consumed } => {
                let next: usize = pos + consumed;
                assert(here.skip(consumed as int) =~= buf@.skip(next as int));
                match Packet::decode(payload.as_slice()) {
                    Err(_) => {
                        assert(done + Seq::<Event>::empty() =~= done);
                        return (actions, next, Outcome::Malformed);
                    },
                    Ok(p) => {
                        match p.packet_type {
                            PacketType::Fin => {
                                assert(done + Seq::<Event>::empty() =~= done);
                                return (actions, next, Outcome::Finished);
                            },
                            PacketType::Req => {
                                let ghost later = serve(all, limit, buf@.skip(next as int));
                                match files.get(&p.id) {
                                    Some(path) => {
                                        let path = path.clone();
                                        actions.push(Action::SendFile { id: p.id, path });
                                        assert(action_events(actions@) =~= done.push(
                                            Event::File { id: p.id, path: path@ },
                                        ));
                                        assert(done + (seq![Event::File { id: p.id, path: path@ }]
                                            + later.events) =~= done.push(
                                            Event::File { id: p.id, path: path@ },
                                        ) + later.events);
                                    },
                                    None => {
                                        assert(done + (Seq::<Event>::empty() + later.events)
                                            =~= done + later.events);
                                    },
                                }
                            },
                            _ => {},
                        }
                        pos = next;
                    },
                }
            },
        }
    }
}

/// Every event of the list asks for a file of the file table.
pub open spec fn all_file_events(table: Map<u32, Seq<char>>, events: Seq<Event>) -> bool {
    forall|k: int|
        0 <= k < events.len() ==> (#[trigger] events[k] matches Event::File { id, path }
            && table.contains_key(id) && table[id] == path)
}

/// Reading inbound bytes asks for files of the file table and for nothing
/// else.
pub proof fn lemma_served_are_files(table: Map<u32, Seq<char>>, limit: u32, buf: Seq<u8>)
    ensures
        all_file_events(table, serve(table, limit, buf).events),
    decreases buf.len(),
{
    match parse_frame(buf, limit) {
        FrameView::Message { payload, consumed } => {
            match parse_packet(payload) {
                Some(p) => {
                    if p.packet_type != PacketType::Fin {
                        lemma_served_are_files(table, limit, buf.skip(consumed as int));
                    }
                },
                None => {},
            }
        },
        _ => {},
    }
}

/// Two lists of file events, one after the other, are a list of file
/// events.
pub proof fn lemma_file_events_add(table: Map<u32, Seq<char>>, a: Seq<Event>, b: Seq<Event>)
    requires
        all_file_events(table, a),
        all_file_events(table, b),
    ensures
        all_file_events(table, a + b),
{
    assert forall|k: int| 0 <= k < (a + b).len() implies (#[trigger] (a + b)[k] matches Event::File {
        id,
        path,
    } && table.contains_key(id) && table[id] == path) by {
        if k < a.len() {
            assert((a + b)[k] == a[k]);
        } else {
            assert((a + b)[k] == b[k - a.len()]);
        }
    }
}

/// The report of a protocol error with the given text.
pub open spec fn is_protocol(report: Option<Error>, text: Seq<char>) -> bool {
    report matches Some(Error::Protocol(m)) && m@ == text
}

/// The text with which a step is refused in a phase that does not admit
/// it.
pub open spec fn refused_text() -> Seq<char> {
    "the call is not in the phase for this step"@
}

/// The text with which a listing of more entries than ids is refused.
pub open spec fn too_many_text() -> Seq<char> {
    "the context holds more entries than ids"@
}

/// The text of the protocol error that breaks a call.
pub open spec fn break_text(outcome: Outcome) -> Seq<char> {
    match outcome {
        Outcome::Malformed => "an inbound frame holds no well-formed packet"@,
        Outcome::TooLarge => "an inbound frame exceeds the limit"@,
        _ => "compressed frames are not supported"@,
    }
}

/// The step that closes a call with an error, after the given actions.
fn failure_step(actions: Vec<Action>, error: Error) -> (r: Step)
    ensures
        action_events(r.actions@) == action_events(actions@) + failure_events(error),
        r.report == Some(error),
{
    let mut actions = actions;
    let ghost before = action_events(actions@);
    actions.push(Action::Trailers { status: error.grpc_status(), message: error.message() });
    assert(action_events(actions@) =~= before + failure_events(error));
    Step { actions, report: Some(error) }
}

/// The step that ends a transfer, after the given actions.
fn closing_step(actions: Vec<Action>, report: Option<Error>) -> (r: Step)
    ensures
        action_events(r.actions@) == action_events(actions@) + closing_events(),
        r.report == report,
{
    let mut actions = actions;
    let ghost before = action_events(actions@);
    actions.push(Action::Send(make_fin()));
    actions.push(Action::Trailers { status: STATUS_OK, message: String::new() });
    assert(action_events(actions@) =~= before + closing_events());
    Step { actions, report }
}

/// The step of a call made in a phase that does not admit it.
fn refused_step() -> (r: Step)
    ensures
        r.actions@.len() == 0,
        is_protocol(r.report, refused_text()),
{
    Step {
        actions: Vec::new(),
        report: Some(Error::protocol("the call is not in the phase for this step")),
    }
}

/// The file table of a listing.
pub fn build_table(root: &str, items: &Vec<WalkItem>) -> (r: HashMap<u32, String>)
    requires
        items@.len() <= u32::MAX,
    ensures
        table_view(r@) == file_table(root@, item_views(items@)),
{
    broadcast use vstd::std_specs::hash::group_hash_axioms;

    let ghost all = item_views(items@);
    let mut files: HashMap<u32, String> = HashMap::new();
    let mut i: usize = 0;
    assert(table_view(files@) =~= file_table(root@, all.take(0)));
    while i < items.len()
        invariant
            i <= items.len(),
            items@.len() <= u32::MAX,
            all == item_views(items@),
            table_view(files@) == file_table(root@, all.take(i as int)),
        decreases items.len() - i,
    {
        let ghost before = table_view(files@);
        let ghost next = file_table(root@, all.take(i + 1));
        if is_regular(items[i].mode) {
            let path = file_path(root, items[i].path.as_str());
            files.insert(i as u32, path);
            assert(table_view(files@) =~= before.insert(i as u32, path@));
            assert forall|id: u32| next.contains_key(id) == before.insert(
                i as u32,
                path@,
            ).contains_key(id) by {
                if id < i {
                    assert(all.take(i + 1)[id as int] == all.take(i as int)[id as int]);
                }
            }
            assert forall|id: u32| next.contains_key(id) implies next[id] == before.insert(
                i as u32,
                path@,
            )[id] by {
                if id < i {
                    assert(all.take(i + 1)[id as int] == all.take(i as int)[id as int]);
                }
            }
            assert(next =~= before.insert(i as u32, path@));
        } else {
            assert forall|id: u32| next.contains_key(id) == before.contains_key(id) by {
                if id < i {
                    assert(all.take(i + 1)[id as int] == all.take(i as int)[id as int]);
                }
            }
            assert forall|id: u32| next.contains_key(id) implies next[id] == before[id] by {
                if id < i {
                    assert(all.take(i + 1)[id as int] == all.take(i as int)[id as int]);
                }
            }
            assert(next =~= before);
        }
        i += 1;
    }
    assert(all.take(i as int) =~= all);
    files
}

/// The engine of one file-sync call.
pub struct DiffCopy {
    /// Where the call stands.
    pub phase: Phase,
    /// The absolute path of the context root.
    pub root: String,
    /// The most bytes that an inbound frame may announce.
    pub max_frame: u32,
    /// The entries that were listed; the id of an entry is its place here.
    pub items: Vec<WalkItem>,
    /// The file table: the local path of each listed regular file, by id.
    pub files: HashMap<u32, String>,
    /// Inbound bytes that are not a whole frame yet.
    pub inbound: Vec<u8>,
    /// Everything that was handed out so far.
    pub trace: Ghost<Seq<Event>>,
}

impl DiffCopy {
    /// The entries that were listed, as plain values.
    pub open spec fn listed(&self) -> Seq<ItemView> {
        item_views(self.items@)
    }

    /// The file table, as plain values.
    pub open spec fn table(&self) -> Map<u32, Seq<char>> {
        table_view(self.files@)
    }

    /// The engine is in order: the file table is that of the listing, and
    /// what was handed out so far has the shape that the phase stands for.
    pub open spec fn wf(&self) -> bool {
        let n: int = (self.items@.len() + 1) as int;
        let t = self.trace@;
        match self.phase {
            Phase::Ready => t.len() == 0 && self.items@.len() == 0 && self.inbound@.len() == 0
                && self.table() == Map::<u32, Seq<char>>::empty(),
            Phase::Serving => self.items@.len() <= u32::MAX && self.table() == file_table(
                self.root@,
                self.listed(),
            ) && t.len() >= n && t.take(n) == listing_events(self.listed()) && all_file_events(
                self.table(),
                t.skip(n),
            ),
            Phase::Done => self.items@.len() <= u32::MAX && self.table() == file_table(
                self.root@,
                self.listed(),
            ) && self.inbound@.len() == 0 && t.len() >= n + 2 && t.take(n) == listing_events(
                self.listed(),
            ) && all_file_events(self.table(), t.subrange(n, t.len() - 2)) && t.skip(t.len() - 2)
                == closing_events(),
            Phase::Failed => self.inbound@.len() == 0 && t.len() > 0 && (
            t.last() matches Event::Trailers { status, .. } && status != STATUS_OK),
        }
    }

    /// An engine for a call on the context at `root`, which accepts inbound
    /// frames of at most `max_frame` bytes.
    pub fn new(root: &str, max_frame: u32) -> (r: Self)
        ensures
            r.wf(),
            r.phase == Phase::Ready,
            r.root@ == root@,
            r.max_frame == max_frame,
            r.trace@ == Seq::<Event>::empty(),
            r.items@.len() == 0,
            r.inbound@.len() == 0,
            r.table() == Map::<u32, Seq<char>>::empty(),
    {
        let r = DiffCopy {
            phase: Phase::Ready,
            root: String::from_str(root),
            max_frame,
            items: Vec::new(),
            files: HashMap::new(),
            inbound: Vec::new(),
            trace: Ghost(Seq::empty()),
        };
        assert(r.table() =~= Map::<u32, Seq<char>>::empty());
        r
    }

    /// Where the call stands.
    pub fn phase(&self) -> (r: Phase)
        ensures
            r == self.phase,
    {
        self.phase
    }

    /// Lists the given entries and goes on to serve requests; fails the
    /// call where there are more entries than 32-bit ids.
    fn begin(&mut self, items: Vec<WalkItem>) -> (r: Step)
        requires
            old(self).phase == Phase::Ready,
        ensures
            old(self).wf() ==> final(self).wf(),
            final(self).root == old(self).root,
            final(self).max_frame == old(self).max_frame,
            final(self).trace@ == old(self).trace@ + action_events(r.actions@),
            final(self).inbound == old(self).inbound,
            items@.len() <= u32::MAX ==> final(self).phase == Phase::Serving && final(self).items
                == items && final(self).table() == file_table(old(self).root@, item_views(items@))
                && action_events(r.actions@) == listing_events(item_views(items@))
                && r.report is None,
            items@.len() > u32::MAX ==> final(self).phase == Phase::Failed && final(self).items
                == old(self).items && final(self).files == old(self).files && is_protocol(
                r.report,
                too_many_text(),
            ) && action_events(r.actions@) == failure_events(r.report.unwrap()),
    {
        let ghost t0 = self.trace@;
        if items.len() > u32::MAX as usize {
            let step = failure_step(
                Vec::new(),
                Error::protocol("the context holds more entries than ids"),
            );
            proof {
                assert(action_events(Seq::<Action>::empty()) =~= Seq::<Event>::empty());
                assert(Seq::<Event>::empty() + failure_events(step.report.unwrap())
                    =~= failure_events(step.report.unwrap()));
                assert((t0 + action_events(step.actions@)).last() == failure_events(
                    step.report.unwrap(),
                )[0]);
            }
            self.phase = Phase::Failed;
            self.trace = Ghost(t0 + action_events(step.actions@));
            return step;
        }
        let ghost all = item_views(items@);
        let ghost wrap = |p: PacketView| Event::Packet(p);
        let mut actions: Vec<Action> = Vec::new();
        let mut i: usize = 0;
        assert(action_events(actions@) =~= listing(all).map_values(wrap).take(0));
        while i < items.len()
            invariant
                i <= items.len(),
                items@.len() <= u32::MAX,
                all == item_views(items@),
                wrap == |p: PacketView| Event::Packet(p),
                action_events(actions@) == listing(all).map_values(wrap).take(i as int),
            decreases items.len() - i,
        {
            let ghost before = action_events(actions@);
            actions.push(Action::Send(make_stat_packet(i as u32, &items[i])));
            proof {
                assert(action_events(actions@) =~= before.push(
                    Event::Packet(stat_packet(i as u32, all[i as int])),
                ));
                assert(listing(all).map_values(wrap).take(i + 1) =~= listing(all).map_values(
                    wrap,
                ).take(i as int).push(Event::Packet(stat_packet(i as u32, all[i as int]))));
            }
            i += 1;
        }
        let ghost before = action_events(actions@);
        actions.push(Action::Send(make_sentinel()));
        proof {
            assert(listing(all).map_values(wrap).take(i as int) =~= listing(all).map_values(wrap));
            assert(action_events(actions@) =~= before.push(Event::Packet(sentinel_packet())));
            if old(self).wf() {
                let t = t0 + action_events(actions@);
                assert(t.take((items@.len() + 1) as int) =~= action_events(actions@));
                assert(t.skip((items@.len() + 1) as int) =~= Seq::<Event>::empty());
            }
        }
        self.files = build_table(self.root.as_str(), &items);
        self.phase = Phase::Serving;
        self.items = items;
        self.trace = Ghost(t0 + action_events(actions@));
        Step { actions, report: None }
    }

    /// Starts a call that asks for the context: walks the entries of the
    /// root, lists what the walk yields and goes on to serve requests.
    /// In any phase but the first nothing changes and the step is refused.
    pub fn start_context(&mut self, entries: &Vec<Entry>, filter: Option<&IncludeSet>) -> (r: Step)
        ensures
            old(self).wf() ==> final(self).wf(),
            final(self).root == old(self).root,
            final(self).max_frame == old(self).max_frame,
            final(self).trace@ == old(self).trace@ + action_events(r.actions@),
            final(self).inbound == old(self).inbound,
            old(self).phase != Phase::Ready ==> *final(self) == *old(self) && r.actions@.len() == 0
                && is_protocol(r.report, refused_text()),
            old(self).phase == Phase::Ready ==> ({
                let items = walk(Seq::empty(), entries@, filter_view(filter));
                if items.len() <= u32::MAX {
                    final(self).phase == Phase::Serving && final(self).listed() == items
                        && final(self).table() == file_table(old(self).root@, items)
                        && action_events(r.actions@) == listing_events(items) && r.report is None
                } else {
                    final(self).phase == Phase::Failed && final(self).items == old(self).items
                        && final(self).files == old(self).files && is_protocol(
                        r.report,
                        too_many_text(),
                    ) && action_events(r.actions@) == failure_events(r.report.unwrap())
                }
            }),
    {
        if self.phase != Phase::Ready {
            let step = refused_step();
            assert(self.trace@ + action_events(step.actions@) =~= self.trace@);
            return step;
        }
        let items = walk_tree(entries, filter);
        self.begin(items)
    }

    /// Starts a call that asks for the Dockerfile alone, given what the
    /// file system says of the file of that name below the root: lists
    /// that one file and goes on to serve requests, or fails the call with
    /// a path that does not exist. In any phase but the first nothing
    /// changes and the step is refused.
    pub fn start_dockerfile(&mut self, name: &str, meta: Option<FileMeta>) -> (r: Step)
        ensures
            old(self).wf() ==> final(self).wf(),
            final(self).root == old(self).root,
            final(self).max_frame == old(self).max_frame,
            final(self).trace@ == old(self).trace@ + action_events(r.actions@),
            final(self).inbound == old(self).inbound,
            old(self).phase != Phase::Ready ==> *final(self) == *old(self) && r.actions@.len() == 0
                && is_protocol(r.report, refused_text()),
            old(self).phase == Phase::Ready ==> (match meta {
                Some(m) => final(self).phase == Phase::Serving && final(self).listed() == seq![
                    ItemView { path: name@, mode: m.mode, size: m.size },
                ] && final(self).table() == file_table(old(self).root@, final(self).listed())
                    && action_events(r.actions@) == listing_events(final(self).listed())
                    && r.report is None,
                None => final(self).phase == Phase::Failed && final(self).items == old(self).items
                    && final(self).files == old(self).files && (
                r.report matches Some(Error::PathNotFound(p)) && p@ == local_path(
                    old(self).root@,
                    name@,
                )) && action_events(r.actions@) == failure_events(r.report.unwrap()),
            }),
    {
        if self.phase != Phase::Ready {
            let step = refused_step();
            assert(self.trace@ + action_events(step.actions@) =~= self.trace@);
            return step;
        }
        match meta {
            Some(m) => {
                let mut items: Vec<WalkItem> = Vec::new();
                items.push(WalkItem { path: String::from_str(name), mode: m.mode, size: m.size });
                assert(item_views(items@) =~= seq![
                    ItemView { path: name@, mode: m.mode, size: m.size },
                ]);
                self.begin(items)
            },
            None => {
                let missing = Error::PathNotFound(file_path(self.root.as_str(), name));
                let step = failure_step(Vec::new(), missing);
                let ghost t0 = self.trace@;
                proof {
                    assert(action_events(Seq::<Action>::empty()) =~= Seq::<Event>::empty());
                    assert(Seq::<Event>::empty() + failure_events(missing) =~= failure_events(
                        missing,
                    ));
                    assert((t0 + action_events(step.actions@)).last() == failure_events(
                        missing,
                    )[0]);
                }
                self.phase = Phase::Failed;
                self.trace = Ghost(t0 + action_events(step.actions@));
                step
            },
        }
    }

    /// Takes inbound bytes: together with those kept from before they are
    /// read frame by frame. Each request for a listed file asks the caller
    /// to send that file. When the daemon ends the transfer the closing
    /// handshake follows and the call is done. A frame that is not
    /// supported, too large or malformed fails the call with a protocol
    /// error. Bytes that are no whole frame yet are kept. In any phase but
    /// that of serving nothing changes and the step is refused.
    pub fn on_data(&mut self, chunk: &[u8]) -> (r: Step)
        ensures
            old(self).wf() ==> final(self).wf(),
            final(self).root == old(self).root,
            final(self).max_frame == old(self).max_frame,
            final(self).items == old(self).items,
            final(self).files == old(self).files,
            final(self).trace@ == old(self).trace@ + action_events(r.actions@),
            old(self).phase != Phase::Serving ==> *final(self) == *old(self) && r.actions@.len()
                == 0 && is_protocol(r.report, refused_text()),
            old(self).phase == Phase::Serving ==> ({
                let served = serve(
                    old(self).table(),
                    old(self).max_frame,
                    old(self).inbound@ + chunk@,
                );
                match served.outcome {
                    Outcome::Continue => final(self).phase == Phase::Serving
                        && final(self).inbound@ == served.rest && action_events(r.actions@)
                        == served.events && r.report is None,
                    Outcome::Finished => final(self).phase == Phase::Done
                        && final(self).inbound@.len() == 0 && action_events(r.actions@)
                        == served.events + closing_events() && r.report is None,
                    _ => final(self).phase == Phase::Failed && final(self).inbound@.len() == 0
                        && is_protocol(r.report, break_text(served.outcome)) && action_events(
                        r.actions@,
                    ) == served.events + failure_events(r.report.unwrap()),
                }
            }),
    {
        if self.phase != Phase::Serving {
            let step = refused_step();
            assert(self.trace@ + action_events(step.actions@) =~= self.trace@);
            return step;
        }
        append_bytes(&mut self.inbound, chunk);
        let ghost buf = self.inbound@;
        let ghost n: int = (self.items@.len() + 1) as int;
        let ghost t = self.trace@;
        let (actions, pos, outcome) = scan_inbound(
            &self.files,
            self.max_frame,
            self.inbound.as_slice(),
        );
        let ghost files = action_events(actions@);
        proof {
            if old(self).wf() {
                lemma_served_are_files(self.table(), self.max_frame, buf);
                lemma_file_events_add(self.table(), t.skip(n), files);
                assert((t + files).take(n) =~= t.take(n));
                assert((t + files).skip(n) =~= t.skip(n) + files);
            }
        }
        match outcome {
            Outcome::Continue => {
                let rest = vstd::slice::slice_to_vec(
                    vstd::slice::slice_subrange(self.inbound.as_slice(), pos, self.inbound.len()),
                );
                assert(rest@ =~= buf.skip(pos as int));
                self.inbound = rest;
                self.trace = Ghost(t + files);
                Step { actions, report: None }
            },
            Outcome::Finished => {
                let step = closing_step(actions, None);
                proof {
                    let t2 = t + action_events(step.actions@);
                    assert(t2 =~= (t + files) + closing_events());
                    if old(self).wf() {
                        assert(t2.take(n) =~= t.take(n));
                        assert(t2.subrange(n, t2.len() - 2) =~= t.skip(n) + files);
                        assert(t2.skip(t2.len() - 2) =~= closing_events());
                    }
                }
                self.inbound = Vec::new();
                self.phase = Phase::Done;
                self.trace = Ghost(t + action_events(step.actions@));
                step
            },
            _ => {
                let error = match outcome {
                    Outcome::Malformed => Error::protocol(
                        "an inbound frame holds no well-formed packet",
                    ),
                    Outcome::TooLarge => Error::protocol("an inbound frame exceeds the limit"),
                    _ => Error::protocol("compressed frames are not supported"),
                };
                let step = failure_step(actions, error);
                proof {
                    let t2 = t + action_events(step.actions@);
                    assert(t2.last() == failure_events(error)[0]);
                }
                self.inbound = Vec::new();
                self.phase = Phase::Failed;
                self.trace = Ghost(t + action_events(step.actions@));
                step
            },
        }
    }

    /// The inbound channel closed. While requests are served this is
    /// reported as an unexpected close, and the closing handshake is still
    /// handed out; once the call is done or has failed, nothing happens.
    /// Before the listing nothing changes and the step is refused.
    pub fn on_close(&mut self) -> (r: Step)
        ensures
            old(self).wf() ==> final(self).wf(),
            final(self).root == old(self).root,
            final(self).max_frame == old(self).max_frame,
            final(self).items == old(self).items,
            final(self).files == old(self).files,
            final(self).trace@ == old(self).trace@ + action_events(r.actions@),
            old(self).phase == Phase::Serving ==> final(self).phase == Phase::Done
                && final(self).inbound@.len() == 0 && action_events(r.actions@)
                == closing_events() && (r.report matches Some(Error::UnexpectedClose)),
            old(self).phase != Phase::Serving ==> *final(self) == *old(self) && r.actions@.len()
                == 0,
            old(self).phase == Phase::Ready ==> is_protocol(r.report, refused_text()),
            old(self).phase == Phase::Done || old(self).phase == Phase::Failed
                ==> r.report is None,
    {
        match self.phase {
            Phase::Serving => {
                let ghost n: int = (self.items@.len() + 1) as int;
                let ghost t = self.trace@;
                let step = closing_step(Vec::new(), Some(Error::UnexpectedClose));
                proof {
                    assert(action_events(Seq::<Action>::empty()) =~= Seq::<Event>::empty());
                    assert(action_events(step.actions@) =~= closing_events());
                    let t2 = t + closing_events();
                    if old(self).wf() {
                        assert(t2.take(n) =~= t.take(n));
                        assert(t2.subrange(n, t2.len() - 2) =~= t.skip(n));
                        assert(t2.skip(t2.len() - 2) =~= closing_events());
                    }
                }
                self.inbound = Vec::new();
                self.phase = Phase::Done;
                self.trace = Ghost(t + closing_events());
                step
            },
            Phase::Ready => {
                let step = refused_step();
                assert(self.trace@ + action_events(step.actions@) =~= self.trace@);
                step
            },
            _ => {
                let step = Step { actions: Vec::new(), report: None };
                assert(self.trace@ + action_events(step.actions@) =~= self.trace@);
                step
            },
        }
    }

    /// The call failed outside the engine: the transport broke, or a
    /// requested file could not be read. Unless the call is done or has
    /// failed already, it fails now: it is closed with the trailers of that
    /// error, and the error is reported.
    pub fn fail(&mut self, error: Error) -> (r: Step)
        ensures
            old(self).wf() ==> final(self).wf(),
            final(self).root == old(self).root,
            final(self).max_frame == old(self).max_frame,
            final(self).items == old(self).items,
            final(self).files == old(self).files,
            final(self).trace@ == old(self).trace@ + action_events(r.actions@),
            old(self).phase == Phase::Done || old(self).phase == Phase::Failed ==> *final(self)
                == *old(self) && r.actions@.len() == 0 && r.report is None,
            old(self).phase == Phase::Ready || old(self).phase == Phase::Serving
                ==> final(self).phase == Phase::Failed && final(self).inbound@.len() == 0
                && action_events(r.actions@) == failure_events(error) && r.report == Some(error),
    {
        match self.phase {
            Phase::Ready | Phase::Serving => {
                let ghost t = self.trace@;
                let step = failure_step(Vec::new(), error);
                proof {
                    assert(action_events(Seq::<Action>::empty()) =~= Seq::<Event>::empty());
                    assert(action_events(step.actions@) =~= failure_events(error));
                    assert((t + failure_events(error)).last() == failure_events(error)[0]);
                }
                self.inbound = Vec::new();
                self.phase = Phase::Failed;
                self.trace = Ghost(t + failure_events(error));
                step
            },
            _ => {
                let step = Step { actions: Vec::new(), report: None };
                assert(self.trace@ + action_events(step.actions@) =~= self.trace@);
                step
            },
        }
    }

    /// A requested file could not be read while the actions of a step were
    /// carried out. Whatever of those actions is left is to be dropped: the
    /// call fails, also where that step had ended the transfer, and is
    /// closed with the trailers of the error. Before the listing and after
    /// a failure nothing happens.
    pub fn file_failed(&mut self, error: Error) -> (r: Step)
        ensures
            old(self).wf() ==> final(self).wf(),
            final(self).root == old(self).root,
            final(self).max_frame == old(self).max_frame,
            final(self).items == old(self).items,
            final(self).files == old(self).files,
            final(self).trace@ == old(self).trace@ + action_events(r.actions@),
            old(self).phase == Phase::Ready || old(self).phase == Phase::Failed ==> *final(self)
                == *old(self) && r.actions@.len() == 0 && r.report is None,
            old(self).phase == Phase::Serving || old(self).phase == Phase::Done
                ==> final(self).phase == Phase::Failed && final(self).inbound@.len() == 0
                && action_events(r.actions@) == failure_events(error) && r.report == Some(error),
    {
        match self.phase {
            Phase::Serving | Phase::Done => {
                let ghost t = self.trace@;
                let step = failure_step(Vec::new(), error);
                proof {
                    assert(action_events(Seq::<Action>::empty()) =~= Seq::<Event>::empty());
                    assert(action_events(step.actions@) =~= failure_events(error));
                    assert((t + failure_events(error)).last() == failure_events(error)[0]);
                }
                self.inbound = Vec::new();
                self.phase = Phase::Failed;
                self.trace = Ghost(t + failure_events(error));
                step
            },
            _ => {
                let step = Step { actions: Vec::new(), report: None };
                assert(self.trace@ + action_events(step.actions@) =~= self.trace@);
                step
            },
        }
    }
}

} // verus!
