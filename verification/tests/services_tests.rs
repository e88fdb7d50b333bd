use buildkit_client::auth::{
    handle_auth_credentials, handle_auth_fetch_token, AuthServer, Credentials, RegistryAuthConfig,
    Rule,
};
use buildkit_client::diffcopy::Headers;
use buildkit_client::error::Error;
use buildkit_client::frame::frame_message;
use buildkit_client::messages::{
    decode_secret_request, decode_text_request, encode_credentials, encode_health, encode_secret,
};
use bytes::{Buf, BufMut};
use prost::encoding::{DecodeContext, WireType};
use prost::DecodeError;
use std::collections::HashMap;
use buildkit_client::secrets::{handle_secrets_get_secret, SecretsServer};
use buildkit_client::tunnel::{
    names_match, read_headers, route, unary_payload, FileSyncServer, GrpcTunnel, HeaderPair,
    ReadBuffer, Reply, Route,
};

fn entry(host: &str, user: &str, pass: &str) -> RegistryAuthConfig {
    RegistryAuthConfig {
        host: host.to_string(),
        username: user.to_string(),
        password: pass.to_string(),
    }
}

fn text_request(text: &str) -> Vec<u8> {
    let mut buf = Vec::new();
    if !text.is_empty() {
        prost::encoding::string::encode(1, &text.to_string(), &mut buf);
    }
    buf
}

fn docker_table() -> AuthServer {
    let mut auth = AuthServer::new();
    auth.add_registry(entry("docker.io", "u", "p"));
    auth
}

#[test]
fn credentials_for_docker_io_answer_its_registries() {
    let auth = docker_table();
    assert_eq!(
        auth.credentials("registry-1.docker.io"),
        Credentials { username: "u".to_string(), secret: "p".to_string() }
    );
    assert_eq!(
        auth.credentials("index.docker.io"),
        Credentials { username: "u".to_string(), secret: "p".to_string() }
    );
    assert_eq!(
        auth.credentials("ghcr.io"),
        Credentials { username: String::new(), secret: String::new() }
    );
}

#[test]
fn an_exact_entry_wins_over_an_earlier_containing_one() {
    let mut auth = AuthServer::new();
    auth.add_registry(entry("io", "first", "1"));
    auth.add_registry(entry("ghcr.io", "exact", "2"));
    auth.add_registry(entry("ghcr.io", "late", "3"));
    assert_eq!(auth.find_credentials("ghcr.io").unwrap().username, "exact");
    assert_eq!(auth.find_credentials("quay.io").unwrap().username, "first");
    assert!(auth.find_credentials("example.com").is_none());
    assert_eq!(auth.find_first("ghcr.io", Rule::Exact), Some(1));
    assert_eq!(auth.find_first("ghcr.io", Rule::Contained), Some(0));
    assert_eq!(auth.find_first("ghcr.io", Rule::DockerAlias), None);
    assert_eq!(docker_table().find_first("index.docker.io", Rule::DockerAlias), Some(0));
    assert_eq!(docker_table().find_first("docker.io", Rule::DockerAlias), None);
}

#[test]
fn new_table_is_empty_and_entries_keep_their_order() {
    assert_eq!(AuthServer::default(), AuthServer::new());
    let mut auth = AuthServer::new();
    assert!(auth.registries.is_empty());
    auth.add_registry(entry("a", "1", "x"));
    auth.add_registry(entry("b", "2", "y"));
    assert_eq!(auth.registries, vec![entry("a", "1", "x"), entry("b", "2", "y")]);
}

#[test]
fn credentials_probe_is_answered_in_bytes() {
    let auth = docker_table();
    let answer = handle_auth_credentials(Some(&auth), &text_request("registry-1.docker.io"));
    let mut expected = Vec::new();
    prost::encoding::string::encode(1, &"u".to_string(), &mut expected);
    prost::encoding::string::encode(2, &"p".to_string(), &mut expected);
    assert_eq!(answer, Ok(expected));
    assert_eq!(handle_auth_credentials(Some(&auth), &text_request("ghcr.io")), Ok(Vec::new()));
    assert_eq!(handle_auth_credentials(None, &text_request("docker.io")), Ok(Vec::new()));
    assert_eq!(
        handle_auth_credentials(Some(&auth), &[0x0a, 0x05]),
        Err(Error::Decode { message_type: "CredentialsRequest".to_string() })
    );
    assert_eq!(handle_auth_fetch_token(&[1, 2, 3]), Vec::<u8>::new());
}

#[test]
fn message_bytes_are_exact() {
    assert_eq!(encode_health(), vec![0x08, 0x01]);
    assert_eq!(encode_credentials("u", "p"), vec![0x0a, 0x01, b'u', 0x12, 0x01, b'p']);
    assert_eq!(encode_credentials("", "p"), vec![0x12, 0x01, b'p']);
    assert_eq!(encode_secret(&[1, 2]), vec![0x0a, 0x02, 1, 2]);
    assert_eq!(encode_secret(&[]), Vec::<u8>::new());
    assert_eq!(decode_text_request(&[], 1), Some(String::new()));
    assert_eq!(
        decode_text_request(&[0x0a, 0x01, b'a', 0x12, 0x01, b'z', 0x0a, 0x01, b'b'], 1),
        Some("b".to_string())
    );
    assert_eq!(decode_text_request(&[0x08, 0x01], 1), None);
    assert_eq!(decode_text_request(&[0x0a, 0x01, 0xc3], 1), None);
    assert_eq!(decode_text_request(&[0x08, 0x01], 2), Some(String::new()));
}

#[test]
fn secrets_are_found_by_identifier() {
    let mut table = SecretsServer::new();
    table.add_secret("npm", vec![1, 2, 3]);
    table.add_secret("ssh", vec![4]);
    table.add_secret("npm", vec![9]);
    assert_eq!(table.get_secret("npm"), Ok(vec![9]));
    assert_eq!(table.get_secret("ssh"), Ok(vec![4]));
    assert_eq!(table.get_secret("gpg"), Err(Error::SecretNotFound("gpg".to_string())));
    assert_eq!(
        SecretsServer::new().get_secret(""),
        Err(Error::SecretNotFound(String::new()))
    );
}

#[test]
fn secret_requests_are_answered_in_bytes() {
    let mut table = SecretsServer::new();
    table.add_secret("npm", vec![1, 2, 3]);
    assert_eq!(
        handle_secrets_get_secret(Some(&table), &text_request("npm")),
        Ok(vec![0x0a, 0x03, 1, 2, 3])
    );
    assert_eq!(
        handle_secrets_get_secret(Some(&table), &text_request("other")),
        Err(Error::SecretNotFound("other".to_string()))
    );
    assert_eq!(
        handle_secrets_get_secret(None, &text_request("npm")),
        Err(Error::SecretsNotConfigured)
    );
    let malformed = Err(Error::Decode { message_type: "GetSecretRequest".to_string() });
    assert_eq!(handle_secrets_get_secret(None, &[0x0a]), malformed);
    let mut annotated = text_request("npm");
    annotated.extend([0x12, 0x06, 0x0a, 0x01, b'k', 0x12, 0x01, b'v']);
    assert_eq!(handle_secrets_get_secret(Some(&table), &annotated), Ok(vec![0x0a, 0x03, 1, 2, 3]));
    let mut bad_value = text_request("npm");
    bad_value.extend([0x12, 0x06, 0x0a, 0x01, b'k', 0x12, 0x01, 0xff]);
    assert_eq!(handle_secrets_get_secret(Some(&table), &bad_value), malformed);
    let mut bad_kind = text_request("npm");
    bad_kind.extend([0x12, 0x02, 0x08, 0x01]);
    assert_eq!(handle_secrets_get_secret(Some(&table), &bad_kind), malformed);
    let mut odd_wire_type = text_request("npm");
    odd_wire_type.extend([0x10, 0x00]);
    assert_eq!(
        handle_secrets_get_secret(Some(&table), &odd_wire_type),
        Ok(vec![0x0a, 0x03, 1, 2, 3])
    );
}

#[test]
fn method_paths_go_to_their_handlers() {
    assert_eq!(route("/grpc.health.v1.Health/Check"), Route::HealthCheck);
    assert_eq!(route("/moby.filesync.v1.FileSync/DiffCopy"), Route::DiffCopy);
    assert_eq!(route("/moby.filesync.v1.Auth/Credentials"), Route::Credentials);
    assert_eq!(route("/moby.filesync.v1.Auth/FetchToken"), Route::FetchToken);
    assert_eq!(route("/moby.filesync.v1.Auth/GetTokenAuthority"), Route::GetTokenAuthority);
    assert_eq!(route("/moby.buildkit.secrets.v1.Secrets/GetSecret"), Route::GetSecret);
    assert_eq!(route("/moby.filesync.v1.Auth/VerifyTokenAuthority"), Route::Unknown);
    assert_eq!(route("/grpc.health.v1.health/check"), Route::Unknown);
    assert_eq!(route(""), Route::Unknown);
}

#[test]
fn unary_body_is_stripped_of_its_prefix() {
    let cut = Err(Error::Protocol("the request is cut short".to_string()));
    assert_eq!(unary_payload(&[]), Ok(Vec::new()));
    assert_eq!(unary_payload(&[0]), cut);
    assert_eq!(unary_payload(&[0, 0, 0, 0]), cut);
    assert_eq!(unary_payload(&[1, 0, 0]), cut);
    assert_eq!(unary_payload(&[0, 0, 0, 0, 0]), Ok(Vec::new()));
    assert_eq!(unary_payload(&[0, 0, 0, 0, 2, 5, 6]), Ok(vec![5, 6]));
    assert_eq!(unary_payload(&[0, 0, 0, 0, 1, 5, 6]), Ok(vec![5]));
    assert_eq!(
        unary_payload(&[1, 0, 0, 0, 0]),
        Err(Error::Protocol("compressed frames are not supported".to_string()))
    );
    assert_eq!(unary_payload(&[0, 0, 0, 0, 3, 5, 6]), cut);
}

fn tunnel() -> GrpcTunnel {
    let mut secrets = SecretsServer::new();
    secrets.add_secret("npm", vec![7]);
    GrpcTunnel::new(Some(FileSyncServer::new("/ctx")), Some(docker_table()), Some(secrets))
}

fn framed(payload: &[u8]) -> Vec<u8> {
    frame_message(payload).unwrap()
}

#[test]
fn unary_calls_are_answered_with_one_frame() {
    let t = tunnel();
    assert_eq!(
        t.respond(Route::HealthCheck, &framed(&[])),
        Reply::Message { frame: vec![0, 0, 0, 0, 2, 0x08, 0x01] }
    );
    assert_eq!(
        t.respond(Route::FetchToken, &framed(&[0x0a, 0x01, b'x'])),
        Reply::Message { frame: vec![0, 0, 0, 0, 0] }
    );
    assert_eq!(
        t.respond(Route::Credentials, &framed(&text_request("index.docker.io"))),
        Reply::Message { frame: framed(&[0x0a, 0x01, b'u', 0x12, 0x01, b'p']) }
    );
    assert_eq!(
        t.respond(Route::GetSecret, &framed(&text_request("npm"))),
        Reply::Message { frame: framed(&[0x0a, 0x01, 7]) }
    );
}

#[test]
fn failing_calls_are_refused_with_status_and_text() {
    let t = tunnel();
    assert_eq!(
        t.respond(Route::Unknown, &[]),
        Reply::Refused { status: 12, message: "Unimplemented".to_string() }
    );
    assert_eq!(
        t.respond(Route::GetTokenAuthority, &[]),
        Reply::Refused { status: 12, message: "Token auth not implemented".to_string() }
    );
    assert_eq!(
        t.respond(Route::GetSecret, &framed(&text_request("gpg"))),
        Reply::Refused { status: 5, message: "Secret not found: gpg".to_string() }
    );
    assert_eq!(
        t.respond(Route::Credentials, &framed(&[0x08, 0x01])),
        Reply::Refused { status: 2, message: "Failed to decode CredentialsRequest".to_string() }
    );
    assert_eq!(
        t.respond(Route::HealthCheck, &[1, 0, 0, 0, 0]),
        Reply::Refused {
            status: 2,
            message: "Protocol error: compressed frames are not supported".to_string()
        }
    );
    assert_eq!(
        t.respond(Route::FetchToken, &[0, 0]),
        Reply::Refused { status: 2, message: "Protocol error: the request is cut short".to_string() }
    );
    assert_eq!(
        t.respond(Route::GetSecret, &framed(&[0x08, 0x01])),
        Reply::Refused { status: 2, message: "Failed to decode GetSecretRequest".to_string() }
    );
    assert_eq!(t.respond(Route::HealthCheck, &[]), Reply::Message { frame: framed(&[8, 1]) });
    let bare = GrpcTunnel::new(None, None, None);
    assert_eq!(
        bare.respond(Route::GetSecret, &framed(&text_request("npm"))),
        Reply::Refused { status: 12, message: "Secrets service is not configured".to_string() }
    );
    assert_eq!(
        bare.respond(Route::DiffCopy, &[]),
        Reply::Refused { status: 12, message: "FileSync not available".to_string() }
    );
    assert_eq!(
        bare.respond(Route::Credentials, &framed(&text_request("docker.io"))),
        Reply::Message { frame: vec![0, 0, 0, 0, 0] }
    );
    assert_eq!(t.respond(Route::DiffCopy, &[]), Reply::Stream { root: "/ctx".to_string() });
}

fn pair(name: &str, value: &str) -> HeaderPair {
    HeaderPair { name: name.to_string(), value: value.to_string() }
}

#[test]
fn request_headers_are_read_whatever_their_case() {
    let pairs = vec![
        pair("content-type", "application/grpc"),
        pair("FollowPaths", "a"),
        pair("Dir-Name", "dockerfile"),
        pair("followpaths", "b/c"),
        pair("dir-name", "context"),
    ];
    assert_eq!(
        read_headers(&pairs),
        Headers {
            dir_name: Some("dockerfile".to_string()),
            followpaths: vec!["a".to_string(), "b/c".to_string()]
        }
    );
    assert_eq!(read_headers(&Vec::new()), Headers { dir_name: None, followpaths: Vec::new() });
    assert!(names_match("Dir-Name", "dir-name"));
    assert!(!names_match("dir_name", "dir-name"));
    assert!(!names_match("dir-name", "dir-names"));
    assert!(!names_match("[", "{"));
}

#[test]
fn read_buffer_hands_out_a_message_piece_by_piece() {
    let mut buffer = ReadBuffer::new();
    assert!(buffer.is_empty());
    assert_eq!(buffer.read(4), Vec::<u8>::new());
    buffer.fill(vec![1, 2, 3, 4, 5]);
    assert!(!buffer.is_empty());
    assert_eq!(buffer.read(2), vec![1, 2]);
    assert_eq!(buffer.read(0), Vec::<u8>::new());
    assert_eq!(buffer.read(2), vec![3, 4]);
    assert_eq!(buffer.read(10), vec![5]);
    assert!(buffer.is_empty());
    assert_eq!(buffer, ReadBuffer { data: Vec::new(), pos: 0 });
    buffer.fill(vec![9]);
    buffer.fill(vec![8, 7]);
    assert_eq!(buffer.read(2), vec![8, 7]);
}

#[derive(Debug, Default)]
struct RefSecretRequest {
    id: String,
    annotations: HashMap<String, String>,
}

impl prost::Message for RefSecretRequest {
    fn encode_raw(&self, _buf: &mut impl BufMut) {}

    fn merge_field(
        &mut self,
        tag: u32,
        wire_type: WireType,
        buf: &mut impl Buf,
        ctx: DecodeContext,
    ) -> Result<(), DecodeError> {
        match tag {
            1 => prost::encoding::string::merge(wire_type, &mut self.id, buf, ctx),
            2 => prost::encoding::hash_map::merge(
                prost::encoding::string::merge,
                prost::encoding::string::merge,
                &mut self.annotations,
                buf,
                ctx,
            ),
            _ => prost::encoding::skip_field(wire_type, tag, buf, ctx),
        }
    }

    fn encoded_len(&self) -> usize {
        0
    }

    fn clear(&mut self) {}
}

#[derive(Debug, Default)]
struct RefCredentialsRequest {
    host: String,
}

impl prost::Message for RefCredentialsRequest {
    fn encode_raw(&self, _buf: &mut impl BufMut) {}

    fn merge_field(
        &mut self,
        tag: u32,
        wire_type: WireType,
        buf: &mut impl Buf,
        ctx: DecodeContext,
    ) -> Result<(), DecodeError> {
        match tag {
            1 => prost::encoding::string::merge(wire_type, &mut self.host, buf, ctx),
            _ => prost::encoding::skip_field(wire_type, tag, buf, ctx),
        }
    }

    fn encoded_len(&self) -> usize {
        0
    }

    fn clear(&mut self) {}
}

#[test]
fn requests_are_read_as_prost_reads_them() {
    let cases: Vec<Vec<u8>> = vec![
        vec![],
        vec![0x0a, 0x01, b'a'],
        vec![0x0a, 0x01, b'a', 0x0a, 0x01, b'b'],
        vec![0x0a, 0x01, 0xff],
        vec![0x08, 0x01],
        vec![0x0d, 1, 2, 3, 4],
        vec![0x0b, 0x0c],
        vec![0x12, 0x00],
        vec![0x12, 0x06, 0x0a, 0x01, b'k', 0x12, 0x01, b'v'],
        vec![0x12, 0x06, 0x0a, 0x01, b'k', 0x12, 0x01, 0xff],
        vec![0x12, 0x03, 0x0a, 0x01, 0xff],
        vec![0x12, 0x02, 0x08, 0x01],
        vec![0x12, 0x02, 0x10, 0x01],
        vec![0x12, 0x02, 0x18, 0x01],
        vec![0x12, 0x02, 0x1b, 0x1c],
        vec![0x12, 0x02, 0x1b, 0x24],
        vec![0x12, 0x05, 0x1d, 1, 2, 3, 4],
        vec![0x10, 0x00],
        vec![0x10, 0x02, 0x0a, 0x00],
        vec![0x15, 0x00],
        vec![0x14, 0x00],
        vec![0x13, 0x00],
        vec![0x12, 0x05, 0x0a],
        vec![0x1a, 0x01, 0x00, 0x0a, 0x01, b'z'],
        vec![0x1b, 0x08, 0x01, 0x1c, 0x0a, 0x01, b'z'],
        vec![0x1b, 0x08, 0x01, 0x24],
        vec![0x1c],
        vec![0x19, 1, 2, 3, 4, 5, 6, 7, 8],
        vec![0x1e, 0x00],
    ];
    for bytes in &cases {
        let secret = <RefSecretRequest as prost::Message>::decode(&bytes[..]).ok().map(|r| r.id);
        assert_eq!(decode_secret_request(bytes), secret, "{bytes:?}");
        let host =
            <RefCredentialsRequest as prost::Message>::decode(&bytes[..]).ok().map(|r| r.host);
        assert_eq!(decode_text_request(bytes, 1), host, "{bytes:?}");
    }
}
