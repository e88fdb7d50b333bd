use buildkit_client::auth::AuthServer;
use buildkit_client::error::Error;
use buildkit_client::progress::{
    error_line, signed_decimal, status_line, status_object, vertex_object,
    ConsoleProgressHandler, JsonProgressHandler, ProgressHandler, SilentProgressHandler,
    StatusUpdate, Vertex, VertexLog, VertexStatus,
};
use buildkit_client::session::{
    build_reference, ephemeral_port, fresh_build_reference, FileSync, PathStatus, Session,
    SessionAttachable, SessionServer, SimpleSession,
};
use buildkit_client::solve::{
    cache_exports, cache_imports, exporters, frontend_attrs, prepare_context, solve_plan, Attr,
    BuildConfig, BuildResult, Descriptor, DockerfileSource, RegistryAuth,
};
use buildkit_client::text::{contains, decimal, ends_with, join, same_text, starts_with};

fn attr(key: &str, value: &str) -> Attr {
    Attr { key: key.to_string(), value: value.to_string() }
}

#[test]
fn session_metadata_carries_the_identity() {
    let session = Session::with_identity("id-1", "key-2");
    assert_eq!(session.id, "id-1");
    assert_eq!(session.shared_key, "session-key-2");
    assert_eq!(
        session.metadata(),
        vec![
            attr("X-Docker-Expose-Session-Uuid", "id-1"),
            attr("X-Docker-Expose-Session-Name", "session-key-2"),
            attr("X-Docker-Expose-Session-Sharedkey", "session-key-2"),
        ]
    );
}

#[test]
fn fresh_sessions_have_fresh_identifiers() {
    let a = Session::new();
    let b = Session::new();
    assert_ne!(a.id, b.id);
    assert_ne!(a.shared_key, b.shared_key);
    let id = uuid::Uuid::parse_str(&a.id).unwrap();
    assert_eq!(id.get_version_num(), 4);
    let key = a.shared_key.strip_prefix("session-").unwrap();
    assert_eq!(uuid::Uuid::parse_str(key).unwrap().get_version_num(), 4);
    assert_ne!(a.id, key);
    assert!(Session::default().shared_key.starts_with("session-"));
    assert!(SimpleSession::default().attachable.is_none());
    let reference = fresh_build_reference();
    assert!(uuid::Uuid::parse_str(reference.strip_prefix("build-").unwrap()).is_ok());
    assert_eq!(build_reference("x"), "build-x");
}

fn has_uuid_shape(s: &str) -> bool {
    s.len() == 36
        && s.chars().enumerate().all(|(i, c)| match i {
            8 | 13 | 18 | 23 => c == '-',
            14 => c == '4',
            19 => "89ab".contains(c),
            _ => c.is_ascii_digit() || ('a'..='f').contains(&c),
        })
}

#[test]
fn fresh_identifiers_have_the_stated_shape() {
    for _ in 0..50 {
        let session = Session::new();
        assert!(has_uuid_shape(&session.id), "{}", session.id);
        assert!(has_uuid_shape(session.shared_key.strip_prefix("session-").unwrap()));
        assert!(!session.started);
        let simple = SimpleSession::new();
        assert!(has_uuid_shape(&simple.id));
        assert!(has_uuid_shape(simple.shared_key.strip_prefix("session-").unwrap()));
        assert!(has_uuid_shape(fresh_build_reference().strip_prefix("build-").unwrap()));
    }
}

#[test]
fn a_message_is_sent_only_on_a_started_session() {
    let mut session = Session::with_identity("i", "k");
    assert_eq!(session.send(vec![1, 2]), Err(Error::SessionNotStarted));
    session.mark_started();
    assert!(session.started);
    assert_eq!(session.id, "i");
    assert_eq!(session.send(vec![1, 2]), Ok(vec![1, 2]));
    assert_eq!(session.send(Vec::new()), Ok(Vec::new()));
}

#[test]
fn context_must_exist_and_be_a_directory() {
    let sync = FileSync::new("/work/ctx");
    assert_eq!(sync.context_path, "/work/ctx");
    assert_eq!(sync.validate(PathStatus::Directory), Ok(()));
    assert_eq!(
        sync.validate(PathStatus::Missing),
        Err(Error::PathNotFound("/work/ctx".to_string()))
    );
    assert_eq!(
        sync.validate(PathStatus::NotADirectory),
        Err(Error::NotADirectory("/work/ctx".to_string()))
    );
}

#[test]
fn attachable_collects_services_and_names_its_addresses() {
    let bare = SessionAttachable::new(50123);
    assert_eq!(
        bare.check_services(),
        Err(Error::Session("No services registered".to_string()))
    );
    let with = bare.with_file_sync("/ctx").with_auth(AuthServer::new());
    assert_eq!(with.check_services(), Ok(()));
    assert_eq!(with.file_sync.as_ref().unwrap().root_path, "/ctx");
    assert_eq!(with.port, 50123);
    assert_eq!(with.listen_address(), "0.0.0.0:50123");
    assert_eq!(with.advertised_address(), "host.docker.internal:50123");
    assert_eq!(SessionAttachable::new(0).listen_address(), "0.0.0.0:0");
}

#[test]
fn session_server_listens_on_loopback() {
    let server = SessionServer::new(1234);
    assert_eq!(server.addr(), "127.0.0.1:1234");
    assert_eq!(
        server.check_services(),
        Err(Error::Session("No services registered".to_string()))
    );
    let server = server.with_auth(AuthServer::new());
    assert_eq!(server.check_services(), Ok(()));
    let server = server.with_file_sync("/ctx");
    assert!(server.auth.is_some());
    assert_eq!(server.file_sync.unwrap().root_path, "/ctx");
    assert_eq!(SessionServer::new(65535).addr(), "127.0.0.1:65535");
}

#[test]
fn simple_session_picks_a_port_once() {
    assert_eq!(ephemeral_port(0), 50000);
    assert_eq!(ephemeral_port(9999), 59999);
    assert_eq!(ephemeral_port(10000), 50000);
    assert_eq!(ephemeral_port(u16::MAX), 55535);

    let mut session = SimpleSession::with_identity("i", "k");
    assert!(session.attachable.is_none());
    session.add_auth_on(AuthServer::new(), 12345);
    assert_eq!(session.attachable.as_ref().unwrap().port, 52345);
    session.add_file_sync_on("/ctx", 1);
    let attached = session.attachable.as_ref().unwrap();
    assert_eq!(attached.port, 52345);
    assert!(attached.auth.is_some());
    assert_eq!(attached.file_sync.as_ref().unwrap().root_path, "/ctx");
    assert_eq!(session.get_id(), "i");
    assert_eq!(session.metadata()[1], attr("X-Docker-Expose-Session-Name", "session-k"));

    let mut random = SimpleSession::new();
    random.add_file_sync("/ctx");
    let port = random.attachable.as_ref().unwrap().port;
    assert!((50000..60000).contains(&port));
    random.add_auth(AuthServer::new());
    assert_eq!(random.attachable.as_ref().unwrap().port, port);
}

fn full_config() -> BuildConfig {
    let mut config = BuildConfig::local("ctx");
    config.source = DockerfileSource::Local {
        context_path: "ctx".to_string(),
        dockerfile_path: Some("docker/Dockerfile".to_string()),
    };
    config.build_args = vec![attr("A", "1"), attr("B", "")];
    config.target = Some("prod".to_string());
    config.platforms = vec!["linux/amd64".to_string(), "linux/arm64".to_string()];
    config.tags = vec!["r/a:1".to_string(), "r/b:2".to_string()];
    config.registry_auth = Some(RegistryAuth {
        host: "localhost:5000".to_string(),
        username: "u".to_string(),
        password: "p".to_string(),
    });
    config.cache_from = vec!["r/cache".to_string()];
    config.cache_to = vec!["r/cache".to_string(), "r/other".to_string()];
    config.no_cache = true;
    config.pull = true;
    config
}

#[test]
fn frontend_attributes_follow_the_configuration() {
    assert_eq!(
        frontend_attrs(&full_config(), "local:///abs/ctx"),
        vec![
            attr("filename", "docker/Dockerfile"),
            attr("build-arg:A", "1"),
            attr("build-arg:B", ""),
            attr("target", "prod"),
            attr("platform", "linux/amd64,linux/arm64"),
            attr("no-cache", "true"),
            attr("image-resolve-mode", "pull"),
            attr("context", "local:///abs/ctx"),
        ]
    );
    assert_eq!(
        frontend_attrs(&BuildConfig::local("ctx"), "local:///abs"),
        vec![attr("context", "local:///abs")]
    );
}

#[test]
fn exporter_and_cache_descriptors_follow_the_configuration() {
    assert_eq!(
        exporters(&full_config()),
        vec![Descriptor {
            kind: "image".to_string(),
            attrs: vec![
                attr("name", "r/a:1,r/b:2"),
                attr("push", "true"),
                attr("registry.insecure", "true"),
            ],
        }]
    );
    let mut remote = full_config();
    remote.registry_auth.as_mut().unwrap().host = "my.localhost".to_string();
    assert_eq!(exporters(&remote)[0].attrs[2], attr("registry.insecure", "false"));
    remote.registry_auth = None;
    assert_eq!(exporters(&remote)[0].attrs.len(), 2);
    assert!(exporters(&BuildConfig::github("https://github.com/a/b")).is_empty());
    assert_eq!(
        cache_imports(&full_config().cache_from),
        vec![Descriptor { kind: "registry".to_string(), attrs: vec![attr("ref", "r/cache")] }]
    );
    assert_eq!(
        cache_exports(&full_config().cache_to)[1],
        Descriptor {
            kind: "registry".to_string(),
            attrs: vec![attr("ref", "r/other"), attr("mode", "max")]
        }
    );
}

#[test]
fn context_source_names_the_local_path_or_the_repository() {
    assert_eq!(
        prepare_context(&BuildConfig::local("ctx").source, "/abs/ctx"),
        "local:///abs/ctx"
    );
    let plain = BuildConfig::github("https://github.com/a/b.git");
    assert_eq!(prepare_context(&plain.source, "unused"), "https://github.com/a/b.git");
    let full = DockerfileSource::GitHub {
        repo_url: "https://github.com/a/b.git".to_string(),
        git_ref: Some("main".to_string()),
        token: Some("tok".to_string()),
        dockerfile_path: None,
    };
    assert_eq!(prepare_context(&full, ""), "https://tok@github.com/a/b.git#main");
    let ssh = DockerfileSource::GitHub {
        repo_url: "git@github.com:a/b.git".to_string(),
        git_ref: None,
        token: Some("tok".to_string()),
        dockerfile_path: None,
    };
    assert_eq!(prepare_context(&ssh, ""), "git@github.com:a/b.git");
    for url in ["https://https://x", "xhttps://y https://z", "https:/", "", "https://"] {
        let source = DockerfileSource::GitHub {
            repo_url: url.to_string(),
            git_ref: None,
            token: Some("t".to_string()),
            dockerfile_path: None,
        };
        assert_eq!(prepare_context(&source, ""), url.replace("https://", "https://t@"));
    }
}

#[test]
fn solve_plan_gathers_the_request() {
    let plan = solve_plan(&full_config(), "build-1", "local:///abs");
    assert_eq!(plan.build_ref, "build-1");
    assert_eq!(plan.frontend, "dockerfile.v0");
    assert_eq!(plan.frontend_attrs, frontend_attrs(&full_config(), "local:///abs"));
    assert_eq!(plan.exporters, exporters(&full_config()));
    assert_eq!(plan.cache_imports.len(), 1);
    assert_eq!(plan.cache_exports.len(), 2);
}

#[test]
fn build_result_reads_the_digest() {
    let response = vec![
        attr("image.name", "r/a:1"),
        attr("containerimage.digest", "sha256:abc"),
        attr("containerimage.digest", "sha256:def"),
    ];
    let result = BuildResult::from_exporter_response(response.clone());
    assert_eq!(result.digest, Some("sha256:def".to_string()));
    assert_eq!(result.metadata, response);
    let none = BuildResult::from_exporter_response(vec![attr("a", "b")]);
    assert_eq!(none.digest, None);
}

#[test]
fn text_helpers_agree_with_std() {
    for (s, p) in [("abc", "bc"), ("abc", ""), ("", ""), ("", "a"), ("aab", "ab"), ("äö", "ö")] {
        assert_eq!(contains(s, p), s.contains(p), "{s:?} {p:?}");
        assert_eq!(starts_with(s, p), s.starts_with(p), "{s:?} {p:?}");
        assert_eq!(ends_with(s, p), s.ends_with(p), "{s:?} {p:?}");
        assert_eq!(same_text(s, p), s == p);
    }
    let items = vec!["a".to_string(), "".to_string(), "c".to_string()];
    assert_eq!(join(&items, ", "), "a, , c");
    assert_eq!(join(&Vec::new(), ","), "");
    assert_eq!(decimal(0), "0");
    assert_eq!(decimal(1234567890), "1234567890");
    assert_eq!(decimal(u64::MAX), u64::MAX.to_string());
    assert_eq!(signed_decimal(i64::MIN), i64::MIN.to_string());
    assert_eq!(signed_decimal(-7), "-7");
}

#[test]
fn error_texts_and_statuses() {
    assert_eq!(Error::session("x").message(), "Session error: x");
    assert_eq!(Error::build("x"), Error::Build("x".to_string()));
    assert_eq!(Error::protocol("bad").message(), "Protocol error: bad");
    assert_eq!(Error::progress("p").message(), "Progress monitoring failed: p");
    assert_eq!(Error::secrets("s").message(), "Secrets error: s");
    assert_eq!(Error::send_failed("Packet", "closed").message(), "Failed to send Packet: closed");
    assert_eq!(Error::decode("Packet").message(), "Failed to decode Packet");
    assert_eq!(Error::encode("Packet").message(), "Failed to encode Packet");
    assert_eq!(Error::other("plain").message(), "plain");
    assert_eq!(Error::SessionNotStarted.message(), "Session has not been started");
    assert_eq!(
        Error::PathOutsideRoot { path: "../x".to_string() }.message(),
        "Path ../x is outside root directory"
    );
    assert_eq!(
        Error::Connection { endpoint: "e".to_string(), reason: "r".to_string() }.message(),
        "Failed to connect to BuildKit at e: r"
    );
    assert_eq!(
        Error::Walk { path: "/ctx/app".to_string(), cause: "denied".to_string() }.message(),
        "Failed to read directory /ctx/app: denied"
    );
    assert_eq!(Error::SecretNotFound("a".to_string()).grpc_status(), 5);
    assert_eq!(Error::PathNotFound("a".to_string()).grpc_status(), 5);
    assert_eq!(Error::SecretsNotConfigured.grpc_status(), 12);
    assert_eq!(Error::UnexpectedClose.grpc_status(), 2);
}

fn update() -> StatusUpdate {
    StatusUpdate {
        vertexes: vec![
            Vertex {
                digest: "sha256:1".to_string(),
                name: "FROM alpine".to_string(),
                cached: true,
                started: Some(10),
                completed: Some(12),
                error: String::new(),
            },
            Vertex {
                digest: "sha256:2".to_string(),
                name: "RUN \"x\"".to_string(),
                cached: false,
                started: Some(13),
                completed: None,
                error: "bad\n".to_string(),
            },
            Vertex {
                digest: String::new(),
                name: "later".to_string(),
                cached: false,
                started: None,
                completed: None,
                error: String::new(),
            },
        ],
        statuses: vec![VertexStatus {
            vertex: "sha256:2".to_string(),
            current: 5,
            total: -1,
            timestamp: None,
        }],
        logs: vec![
            VertexLog { msg: b"hello ".to_vec() },
            VertexLog { msg: vec![0xff] },
            VertexLog { msg: b"world\n".to_vec() },
        ],
    }
}

#[test]
fn console_handler_writes_lines_for_steps_and_logs() {
    let mut quiet = ConsoleProgressHandler::new(false);
    assert_eq!(quiet.on_start(), "🚀 Build started...\n");
    assert_eq!(quiet.on_status(&update()), "✅ FROM alpine\n⏳ RUN \"x\"...\n");
    assert_eq!(quiet.on_complete(), "✨ Build completed successfully!\n");
    assert_eq!(quiet.on_error("boom"), "❌ Build failed: boom\n");
    let mut verbose = ConsoleProgressHandler::new(true);
    assert!(verbose.verbose);
    assert_eq!(
        verbose.on_status(&update()),
        "✅ FROM alpine\n⏳ RUN \"x\"...\nhello world\n"
    );
}

#[test]
fn json_handler_writes_one_object_per_event() {
    let mut handler = JsonProgressHandler::new();
    assert_eq!(handler.on_start(), "{\"status\": \"started\"}\n");
    assert_eq!(handler.on_complete(), "{\"status\": \"completed\"}\n");
    assert_eq!(
        handler.on_error("a \"b\"\n\\"),
        "{\"error\":\"a \\\"b\\\"\\n\\\\\",\"status\":\"failed\"}\n"
    );
    let line = handler.on_status(&update());
    let expected = serde_json::Value::Object(
        [
            (
                "statuses".to_string(),
                serde_json::Value::Array(vec![serde_json::Value::Object(
                    [
                        ("vertex".to_string(), serde_json::Value::from("sha256:2")),
                        ("current".to_string(), serde_json::Value::from(5)),
                        ("total".to_string(), serde_json::Value::from(-1)),
                        ("timestamp".to_string(), serde_json::Value::Null),
                    ]
                    .into_iter()
                    .collect(),
                )]),
            ),
            (
                "vertexes".to_string(),
                serde_json::Value::Array(
                    update()
                        .vertexes
                        .iter()
                        .map(|v| {
                            serde_json::Value::Object(
                                [
                                    ("digest".to_string(), serde_json::Value::from(v.digest.clone())),
                                    ("name".to_string(), serde_json::Value::from(v.name.clone())),
                                    ("cached".to_string(), serde_json::Value::from(v.cached)),
                                    ("started".to_string(), serde_json::Value::from(v.started)),
                                    ("completed".to_string(), serde_json::Value::from(v.completed)),
                                    ("error".to_string(), serde_json::Value::from(v.error.clone())),
                                ]
                                .into_iter()
                                .collect(),
                            )
                        })
                        .collect(),
                ),
            ),
        ]
        .into_iter()
        .collect(),
    );
    assert_eq!(line, format!("{}\n", serde_json::to_string(&expected).unwrap()));
    let empty = StatusUpdate { vertexes: Vec::new(), statuses: Vec::new(), logs: Vec::new() };
    assert_eq!(handler.on_status(&empty), "{\"statuses\":[],\"vertexes\":[]}\n");
}

#[test]
fn silent_handler_writes_nothing() {
    let mut handler = SilentProgressHandler::new();
    assert_eq!(handler.on_start(), "");
    assert_eq!(handler.on_status(&update()), "");
    assert_eq!(handler.on_complete(), "");
    assert_eq!(handler.on_error("x"), "");
}

#[test]
fn json_lines_are_assembled_from_quoted_texts() {
    assert_eq!(error_line("\"x\""), "{\"error\":\"x\",\"status\":\"failed\"}\n");
    assert_eq!(error_line(""), "{\"error\":,\"status\":\"failed\"}\n");
    let v = &update().vertexes[1];
    assert_eq!(
        vertex_object(v, "D", "E", "N"),
        "{\"cached\":false,\"completed\":null,\"digest\":D,\"error\":E,\"name\":N,\"started\":13}"
    );
    let s = &update().statuses[0];
    assert_eq!(
        status_object(s, "V"),
        "{\"current\":5,\"timestamp\":null,\"total\":-1,\"vertex\":V}"
    );
    assert_eq!(
        status_line(&vec!["a".to_string(), "b".to_string()], &vec!["c".to_string()]),
        "{\"statuses\":[a,b],\"vertexes\":[c]}\n"
    );
    assert_eq!(status_line(&Vec::new(), &Vec::new()), "{\"statuses\":[],\"vertexes\":[]}\n");
}
