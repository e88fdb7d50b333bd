//! The tunnel: which handler a tunnelled call goes to, what a unary call
//! is answered with, the request headers that a file-sync call reads, and
//! the buffer that turns inbound messages into a stream of bytes.

use crate::auth::{credentials_of, handle_auth_credentials, probe_host, AuthServer};
use crate::diffcopy::Headers;
use crate::error::{Error, STATUS_UNIMPLEMENTED, STATUS_UNKNOWN};
use crate::frame::{frame_message, framed, next_frame, parse_frame, FrameView, Unframed};
use crate::messages::{credentials_bytes, encode_health, health_bytes, secret_bytes};
use crate::secrets::{handle_secrets_get_secret, requested_secret, SecretsServer};
use crate::text::{chars_of, same_text};
use vstd::prelude::*;

verus! {

/// The handler of a call.
#[derive(Debug, Clone, Copy, PartialEq, Eq, Structural)]
pub enum Route {
    HealthCheck,
    DiffCopy,
    Credentials,
    FetchToken,
    GetTokenAuthority,
    GetSecret,
    Unknown,
}

/// The handler that the dispatch table gives to a method path.
pub open spec fn route_of(method: Seq<char>) -> Route {
    if method == "/grpc.health.v1.Health/Check"@ {
        Route::HealthCheck
    } else if method == "/moby.filesync.v1.FileSync/DiffCopy"@ {
        Route::DiffCopy
    } else if method == "/moby.filesync.v1.Auth/GetTokenAuthority"@ {
        Route::GetTokenAuthority
    } else if method == "/moby.filesync.v1.Auth/Credentials"@ {
        Route::Credentials
    } else if method == "/moby.filesync.v1.Auth/FetchToken"@ {
        Route::FetchToken
    } else if method == "/moby.buildkit.secrets.v1.Secrets/GetSecret"@ {
        Route::GetSecret
    } else {
        Route::Unknown
    }
}

/// The handler of the call with the given method path.
pub fn route(method: &str) -> (r: Route)
    ensures
        r == route_of(method@),
{
    if same_text(method, "/grpc.health.v1.Health/Check") {
        Route::HealthCheck
    } else if same_text(method, "/moby.filesync.v1.FileSync/DiffCopy") {
        Route::DiffCopy
    } else if same_text(method, "/moby.filesync.v1.Auth/GetTokenAuthority") {
        Route::GetTokenAuthority
    } else if same_text(method, "/moby.filesync.v1.Auth/Credentials") {
        Route::Credentials
    } else if same_text(method, "/moby.filesync.v1.Auth/FetchToken") {
        Route::FetchToken
    } else if same_text(method, "/moby.buildkit.secrets.v1.Secrets/GetSecret") {
        Route::GetSecret
    } else {
        Route::Unknown
    }
}

/// The file-sync service: the context root that it serves.
#[derive(Debug, Clone, PartialEq, Eq)]
pub struct FileSyncServer {
    pub root_path: String,
}

impl FileSyncServer {
    /// The service for the context at `root_path`.
    pub fn new(root_path: &str) -> (r: Self)
        ensures
            r.root_path@ == root_path@,
    {
        FileSyncServer { root_path: String::from_str(root_path) }
    }

    /// The context root.
    pub fn get_root_path(&self) -> (r: String)
        ensures
            r@ == self.root_path@,
    {
        self.root_path.clone()
    }
}

/// The services that the tunnel dispatches to.
#[derive(Debug, Clone, PartialEq, Eq)]
pub struct GrpcTunnel {
    pub file_sync: Option<FileSyncServer>,
    pub auth: Option<AuthServer>,
    pub secrets: Option<SecretsServer>,
}

/// What a call is answered with.
#[derive(Debug, Clone, PartialEq, Eq)]
pub enum Reply {
    /// One framed message, then the trailers of success.
    Message { frame: Vec<u8> },
    /// No message: the status and its text.
    Refused { status: u32, message: String },
    /// The call is a file-sync stream on the context at `root`.
    Stream { root: String },
}

/// What a call is answered with, as plain values.
pub ghost enum ReplyView {
    Message { frame: Seq<u8> },
    Refused { status: u32, message: Seq<char> },
    Stream { root: Seq<char> },
}

impl View for Reply {
    type V = ReplyView;

    open spec fn view(&self) -> ReplyView {
        match self {
            Reply::Message { frame } => ReplyView::Message { frame: frame@ },
            Reply::Refused { status, message } => ReplyView::Refused {
                status: *status,
                message: message@,
            },
            Reply::Stream { root } => ReplyView::Stream { root: root@ },
        }
    }
}

/// The payload of a unary request, or why there is none. An empty body
/// holds an empty request; any other body must begin with one whole frame
/// whose flag byte is zero, and holds what that frame holds.
pub open spec fn unary_request_of(body: Seq<u8>) -> Result<Seq<u8>, Seq<char>> {
    if body.len() == 0 {
        Ok(Seq::empty())
    } else {
        match parse_frame(body, u32::MAX) {
            FrameView::Message { payload, .. } => Ok(payload),
            FrameView::Unsupported => Err("compressed frames are not supported"@),
            _ => Err("the request is cut short"@),
        }
    }
}

/// The payload of a unary request. Fails with a protocol error exactly
/// where the body is neither empty nor a frame.
pub fn unary_payload(body: &[u8]) -> (r: Result<Vec<u8>, Error>)
    ensures
        match unary_request_of(body@) {
            Ok(p) => r is Ok && r.unwrap()@ == p,
            Err(text) => r matches Err(Error::Protocol(m)) && m@ == text,
        },
{
    if body.len() == 0 {
        return Ok(Vec::new());
    }
    match next_frame(body, u32::MAX) {
        Unframed::Message { payload, consumed } => Ok(payload),
        Unframed::Unsupported => Err(Error::protocol("compressed frames are not supported")),
        _ => Err(Error::protocol("the request is cut short")),
    }
}

/// The refusal of a call that broke the protocol: the unknown status, and
/// the text of the protocol error.
pub open spec fn protocol_refusal(text: Seq<char>) -> ReplyView {
    ReplyView::Refused { status: STATUS_UNKNOWN, message: "Protocol error: "@ + text }
}

/// The refusal of a request that does not decode as the named message.
pub open spec fn decode_refusal(name: Seq<char>) -> ReplyView {
    ReplyView::Refused { status: STATUS_UNKNOWN, message: "Failed to decode "@ + name }
}

/// The reply that carries an answer: the answer in one frame, or a
/// refusal where the answer is too long for one frame.
pub open spec fn answer_reply(bytes: Seq<u8>) -> ReplyView {
    if bytes.len() <= u32::MAX {
        ReplyView::Message { frame: framed(bytes) }
    } else {
        protocol_refusal("message is too long for one frame"@)
    }
}

/// The reply to a credentials probe with the given payload.
pub open spec fn credentials_reply(auth: Option<AuthServer>, payload: Seq<u8>) -> ReplyView {
    match probe_host(payload) {
        None => decode_refusal("CredentialsRequest"@),
        Some(host) => answer_reply(
            match auth {
                Some(a) => credentials_bytes(
                    credentials_of(a.registries@, host).0,
                    credentials_of(a.registries@, host).1,
                ),
                None => credentials_bytes(Seq::empty(), Seq::empty()),
            },
        ),
    }
}

/// The reply to a request for a secret with the given payload.
pub open spec fn secret_reply(secrets: Option<SecretsServer>, payload: Seq<u8>) -> ReplyView {
    match requested_secret(payload) {
        None => decode_refusal("GetSecretRequest"@),
        Some(id) => match secrets {
            None => ReplyView::Refused {
                status: STATUS_UNIMPLEMENTED,
                message: "Secrets service is not configured"@,
            },
            Some(table) => if table@.contains_key(id) {
                answer_reply(secret_bytes(table@[id]))
            } else {
                ReplyView::Refused {
                    status: crate::error::STATUS_NOT_FOUND,
                    message: "Secret not found: "@ + id,
                }
            },
        },
    }
}

/// What the call to `route` with the given request body is answered with.
/// A call without a handler and a request for a token authority are
/// refused as unimplemented. A file-sync call becomes a stream on the
/// context root, or is refused where no file sync is configured. A unary
/// call whose body is no request is refused with the protocol error; else
/// it is answered with one framed message, or refused with the status and
/// the text of its handler's error.
pub open spec fn reply_of(tunnel: GrpcTunnel, route: Route, body: Seq<u8>) -> ReplyView {
    match route {
        Route::Unknown => ReplyView::Refused {
            status: STATUS_UNIMPLEMENTED,
            message: "Unimplemented"@,
        },
        Route::GetTokenAuthority => ReplyView::Refused {
            status: STATUS_UNIMPLEMENTED,
            message: "Token auth not implemented"@,
        },
        Route::DiffCopy => match tunnel.file_sync {
            Some(fs) => ReplyView::Stream { root: fs.root_path@ },
            None => ReplyView::Refused {
                status: STATUS_UNIMPLEMENTED,
                message: "FileSync not available"@,
            },
        },
        _ => match unary_request_of(body) {
            Err(text) => protocol_refusal(text),
            Ok(payload) => match route {
                Route::HealthCheck => answer_reply(health_bytes()),
                Route::FetchToken => answer_reply(Seq::empty()),
                Route::Credentials => credentials_reply(tunnel.auth, payload),
                _ => secret_reply(tunnel.secrets, payload),
            },
        },
    }
}

/// The reply that carries an answer, or that reports why there is none.
fn reply_with(answer: Result<Vec<u8>, Error>) -> (r: Reply)
    ensures
        match answer {
            Ok(bytes) => r@ == answer_reply(bytes@),
            Err(e) => r@ == (ReplyView::Refused {
                status: e.status_code(),
                message: e.message_text(),
            }),
        },
{
    match answer {
        Ok(bytes) => match frame_message(bytes.as_slice()) {
            Ok(frame) => Reply::Message { frame },
            Err(e) => Reply::Refused { status: e.grpc_status(), message: e.message() },
        },
        Err(e) => Reply::Refused { status: e.grpc_status(), message: e.message() },
    }
}

/// The reply of a call that this side does not serve.
fn unimplemented(message: &str) -> (r: Reply)
    ensures
        r matches Reply::Refused { status, message: m } && status == STATUS_UNIMPLEMENTED && m@
            == message@,
{
    Reply::Refused { status: STATUS_UNIMPLEMENTED, message: String::from_str(message) }
}

impl GrpcTunnel {
    /// A tunnel that dispatches to the given services.
    pub fn new(
        file_sync: Option<FileSyncServer>,
        auth: Option<AuthServer>,
        secrets: Option<SecretsServer>,
    ) -> (r: Self)
        ensures
            r.file_sync == file_sync,
            r.auth == auth,
            r.secrets == secrets,
    {
        GrpcTunnel { file_sync, auth, secrets }
    }

    /// The answer to a health check: the serving status.
    pub fn handle_health_check(&self, payload: &[u8]) -> (r: Vec<u8>)
        ensures
            r@ == health_bytes(),
    {
        encode_health()
    }

    /// The configured credential table, if any.
    pub fn auth_table(&self) -> (r: Option<&AuthServer>)
        ensures
            match self.auth {
                Some(a) => r == Some(&a),
                None => r is None,
            },
    {
        match &self.auth {
            Some(a) => Some(a),
            None => None,
        }
    }

    /// The configured secret table, if any.
    pub fn secret_table(&self) -> (r: Option<&SecretsServer>)
        ensures
            match self.secrets {
                Some(s) => r == Some(&s),
                None => r is None,
            },
    {
        match &self.secrets {
            Some(s) => Some(s),
            None => None,
        }
    }

    /// What the call to `route` with the given request body is answered
    /// with.
    pub fn respond(&self, route: Route, body: &[u8]) -> (r: Reply)
        ensures
            r@ == reply_of(*self, route, body@),
    {
        match route {
            Route::Unknown => unimplemented("Unimplemented"),
            Route::GetTokenAuthority => unimplemented("Token auth not implemented"),
            Route::DiffCopy => match &self.file_sync {
                Some(fs) => Reply::Stream { root: fs.get_root_path() },
                None => unimplemented("FileSync not available"),
            },
            _ => {
                let payload = match unary_payload(body) {
                    Ok(p) => p,
                    Err(e) => {
                        return reply_with(Err(e));
                    },
                };
                match route {
                    Route::HealthCheck => {
                        proof {
                            lemma_health_is_short();
                        }
                        reply_with(Ok(self.handle_health_check(payload.as_slice())))
                    },
                    Route::FetchToken => reply_with(
                        Ok(crate::auth::handle_auth_fetch_token(payload.as_slice())),
                    ),
                    Route::Credentials => reply_with(
                        handle_auth_credentials(self.auth_table(), payload.as_slice()),
                    ),
                    _ => reply_with(
                        handle_secrets_get_secret(self.secret_table(), payload.as_slice()),
                    ),
                }
            },
        }
    }
}

/// The answer to a health check is two bytes long.
pub proof fn lemma_health_is_short()
    ensures
        health_bytes() == seq![8u8, 1u8],
{
    let fields = crate::packet::opt_varint(1, 1);
    assert(fields.skip(1) =~= Seq::<crate::wire::FieldView>::empty());
    reveal_with_fuel(crate::wire::fields_bytes, 2);
    reveal_with_fuel(crate::wire::varint_bytes, 2);
    assert(crate::wire::varint_bytes(8) =~= seq![8u8]);
    assert(crate::wire::varint_bytes(1) =~= seq![1u8]);
    assert(crate::wire::field_bytes(fields[0]) =~= seq![8u8, 1u8]);
    assert(health_bytes() =~= seq![8u8, 1u8]);
}

/// Whether two header names are the same but for the case of their ASCII
/// letters.
pub open spec fn same_name(a: Seq<char>, b: Seq<char>) -> bool {
    a.len() == b.len() && forall|i: int| 0 <= i < a.len() ==> lower(a[i]) == lower(b[i])
}

/// An ASCII capital as its small letter; every other character as it is.
pub open spec fn lower(c: char) -> char {
    if 'A' <= c && c <= 'Z' {
        ((c as u8) + 32) as char
    } else {
        c
    }
}

/// An ASCII capital as its small letter; every other character as it is.
pub fn to_lower(c: char) -> (r: char)
    ensures
        r == lower(c),
{
    if 'A' <= c && c <= 'Z' {
        ((c as u8) + 32) as char
    } else {
        c
    }
}

/// Whether two header names are the same but for the case of their ASCII
/// letters.
pub fn names_match(a: &str, b: &str) -> (r: bool)
    ensures
        r == same_name(a@, b@),
{
    let ac = chars_of(a);
    let bc = chars_of(b);
    if ac.len() != bc.len() {
        return false;
    }
    let mut i: usize = 0;
    while i < ac.len()
        invariant
            i <= ac.len(),
            ac.len() == bc.len(),
            ac@ == a@,
            bc@ == b@,
            forall|j: int| 0 <= j < i ==> lower(ac@[j]) == lower(bc@[j]),
        decreases ac.len() - i,
    {
        if to_lower(ac[i]) != to_lower(bc[i]) {
            return false;
        }
        i += 1;
    }
    true
}

/// One request header: its name and its value.
#[derive(Debug, Clone, PartialEq, Eq)]
pub struct HeaderPair {
    pub name: String,
    pub value: String,
}

/// The value of the first header of the given name, if there is one.
pub open spec fn first_value(pairs: Seq<HeaderPair>, name: Seq<char>) -> Option<Seq<char>>
    decreases pairs.len(),
{
    if pairs.len() == 0 {
        None
    } else if same_name(pairs[0].name@, name) {
        Some(pairs[0].value@)
    } else {
        first_value(pairs.skip(1), name)
    }
}

/// The values of all headers of the given name, in order.
pub open spec fn all_values(pairs: Seq<HeaderPair>, name: Seq<char>) -> Seq<Seq<char>>
    decreases pairs.len(),
{
    if pairs.len() == 0 {
        Seq::empty()
    } else {
        let before = all_values(pairs.drop_last(), name);
        if same_name(pairs.last().name@, name) {
            before.push(pairs.last().value@)
        } else {
            before
        }
    }
}

/// The headers that a file-sync call reads: the first `dir-name` and
/// every `followpaths`, whatever the case of the names.
pub fn read_headers(pairs: &Vec<HeaderPair>) -> (r: Headers)
    ensures
        match first_value(pairs@, "dir-name"@) {
            Some(v) => r.dir_name matches Some(d) && d@ == v,
            None => r.dir_name is None,
        },
        crate::text::views(r.followpaths@) == all_values(pairs@, "followpaths"@),
{
    let mut dir_name: Option<String> = None;
    let mut followpaths: Vec<String> = Vec::new();
    let mut i: usize = 0;
    proof {
        assert(pairs@.skip(0) =~= pairs@);
        assert(pairs@.take(0) =~= Seq::<HeaderPair>::empty());
        assert(crate::text::views(followpaths@) =~= Seq::<Seq<char>>::empty());
    }
    while i < pairs.len()
        invariant
            i <= pairs.len(),
            match dir_name {
                Some(d) => first_value(pairs@, "dir-name"@) == Some(d@),
                None => first_value(pairs@, "dir-name"@) == first_value(
                    pairs@.skip(i as int),
                    "dir-name"@,
                ),
            },
            crate::text::views(followpaths@) == all_values(pairs@.take(i as int), "followpaths"@),
        decreases pairs.len() - i,
    {
        proof {
            assert(pairs@.skip(i as int)[0] == pairs@[i as int]);
            assert(pairs@.skip(i as int).skip(1) =~= pairs@.skip(i + 1));
            assert(pairs@.take(i + 1).drop_last() =~= pairs@.take(i as int));
            assert(pairs@.take(i + 1).last() == pairs@[i as int]);
        }
        if dir_name.is_none() && names_match(pairs[i].name.as_str(), "dir-name") {
            dir_name = Some(pairs[i].value.clone());
        }
        if names_match(pairs[i].name.as_str(), "followpaths") {
            let ghost before = crate::text::views(followpaths@);
            followpaths.push(pairs[i].value.clone());
            assert(crate::text::views(followpaths@) =~= before.push(pairs@[i as int].value@));
        }
        i += 1;
    }
    proof {
        assert(pairs@.take(i as int) =~= pairs@);
        assert(pairs@.skip(i as int) =~= Seq::<HeaderPair>::empty());
    }
    Headers { dir_name, followpaths }
}

/// The buffer between inbound messages and the reader of a byte stream:
/// it holds one message and hands out its bytes in order.
#[derive(Debug, Clone, PartialEq, Eq)]
pub struct ReadBuffer {
    pub data: Vec<u8>,
    pub pos: usize,
}

impl ReadBuffer {
    /// The bytes that were not handed out yet.
    pub open spec fn pending(&self) -> Seq<u8> {
        if self.pos <= self.data@.len() {
            self.data@.skip(self.pos as int)
        } else {
            Seq::empty()
        }
    }

    /// A buffer that holds no message, with its read position at the start.
    pub fn new() -> (r: Self)
        ensures
            r.data@ == Seq::<u8>::empty(),
            r.pos == 0,
            r.pending() == Seq::<u8>::empty(),
    {
        let r = ReadBuffer { data: Vec::new(), pos: 0 };
        assert(r.pending() =~= Seq::<u8>::empty());
        r
    }

    /// Whether nothing is left to hand out.
    pub fn is_empty(&self) -> (r: bool)
        ensures
            r == (self.pending().len() == 0),
    {
        self.pos >= self.data.len()
    }

    /// Takes the next inbound message in place of what the buffer held.
    pub fn fill(&mut self, message: Vec<u8>)
        ensures
            final(self).pending() == message@,
    {
        self.data = message;
        self.pos = 0;
        assert(self.pending() =~= message@);
    }

    /// Hands out the next bytes: as many as are pending, and at most
    /// `max`.
    pub fn read(&mut self, max: usize) -> (r: Vec<u8>)
        ensures
            r@.len() == if old(self).pending().len() <= max {
                old(self).pending().len()
            } else {
                max as nat
            },
            r@ == old(self).pending().take(r@.len() as int),
            final(self).pending() == old(self).pending().skip(r@.len() as int),
    {
        let ghost before = self.pending();
        if self.pos >= self.data.len() {
            self.data = Vec::new();
            self.pos = 0;
            let out: Vec<u8> = Vec::new();
            assert(before =~= Seq::<u8>::empty());
            assert(out@ =~= before.take(0));
            assert(self.pending() =~= before.skip(0));
            return out;
        }
        let remaining: usize = self.data.len() - self.pos;
        let n: usize = if remaining <= max {
            remaining
        } else {
            max
        };
        let out = vstd::slice::slice_to_vec(
            vstd::slice::slice_subrange(self.data.as_slice(), self.pos, self.pos + n),
        );
        assert(out@ =~= before.take(n as int));
        if n == remaining {
            self.data = Vec::new();
            self.pos = 0;
            assert(self.pending() =~= before.skip(n as int));
        } else {
            self.pos = self.pos + n;
            assert(self.pending() =~= before.skip(n as int));
        }
        out
    }
}

} // verus!
