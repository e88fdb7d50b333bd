use buildkit_client::diffcopy::{
    chunk_packets, file_data_packets, frame_packet, interpret_headers, item_stat, make_fin, Action,
    DiffCopy, FileMeta, FileStream, Headers, Phase, Plan, Step, CHUNK_SIZE, MAX_INBOUND_FRAME,
};
use buildkit_client::error::Error;
use buildkit_client::filemode::GO_MODE_DIR;
use buildkit_client::packet::{Packet, PacketType};
use buildkit_client::walker::{Entry, WalkItem};

const LIMIT: u32 = MAX_INBOUND_FRAME;

fn req(id: u32) -> Vec<u8> {
    let p = Packet { packet_type: PacketType::Req, stat: None, id, data: Vec::new() };
    frame_packet(&p).unwrap()
}

fn fin() -> Vec<u8> {
    frame_packet(&make_fin()).unwrap()
}

fn sentinel() -> Packet {
    Packet { packet_type: PacketType::Stat, stat: None, id: 0, data: Vec::new() }
}

fn ok_trailers() -> Action {
    Action::Trailers { status: 0, message: String::new() }
}

fn context() -> Vec<Entry> {
    vec![
        Entry { name: "Dockerfile".to_string(), mode: 0o100644, size: 12, children: Vec::new() },
        Entry {
            name: "app".to_string(),
            mode: 0o040755,
            size: 4096,
            children: vec![Entry {
                name: "main.txt".to_string(),
                mode: 0o100644,
                size: 4,
                children: Vec::new(),
            }],
        },
    ]
}

fn serving() -> DiffCopy {
    let mut engine = DiffCopy::new("/ctx", LIMIT);
    let step = engine.start_context(&context(), None);
    assert!(step.report.is_none());
    engine
}

#[test]
fn file_data_packets_stream_contents_and_eof() {
    let content_len = 70 * 1024 + 7;
    let expected_content = vec![b'a'; content_len];

    let req_id = 42u32;
    let packets = file_data_packets(req_id, &expected_content);

    let mut offset = 0usize;
    let mut expected_sizes = Vec::new();
    let mut remaining = expected_content.len();
    while remaining > 0 {
        let chunk = remaining.min(32 * 1024);
        expected_sizes.push(chunk);
        remaining -= chunk;
    }
    expected_sizes.push(0);

    assert_eq!(packets.len(), expected_sizes.len());
    for (packet, expected_size) in packets.iter().zip(expected_sizes.iter()) {
        assert_eq!(packet.packet_type, PacketType::Data);
        assert_eq!(packet.id, req_id);

        let data = &packet.data;
        assert_eq!(data.len(), *expected_size);

        if *expected_size > 0 {
            let end = offset + *expected_size;
            assert_eq!(data, &expected_content[offset..end], "mismatched chunk contents");
            offset = end;
        }
    }

    assert_eq!(offset, expected_content.len());
}

#[test]
fn chunk_sizes_of_a_large_file_are_exact() {
    let content = vec![0x61u8; 70 * 1024 + 7];
    let packets = file_data_packets(9, &content);
    let sizes: Vec<usize> = packets.iter().map(|p| p.data.len()).collect();
    assert_eq!(sizes, vec![32768, 32768, 6151, 0]);
    assert_eq!(CHUNK_SIZE, 32 * 1024);
}

#[test]
fn an_empty_file_is_one_empty_packet() {
    let packets = file_data_packets(3, &[]);
    assert_eq!(packets.len(), 1);
    assert_eq!(packets[0].packet_type, PacketType::Data);
    assert_eq!(packets[0].id, 3);
    assert!(packets[0].data.is_empty());
    assert!(packets[0].stat.is_none());
}

#[test]
fn a_file_of_exactly_one_chunk_is_two_packets() {
    let content = vec![7u8; 32 * 1024];
    let packets = file_data_packets(1, &content);
    let sizes: Vec<usize> = packets.iter().map(|p| p.data.len()).collect();
    assert_eq!(sizes, vec![32768, 0]);
}

#[test]
fn a_file_read_piece_by_piece_ends_with_one_empty_packet() {
    let mut stream = FileStream::new(5);
    assert!(!stream.is_closed());
    let first = stream.push(&[1, 2, 3]);
    assert_eq!(first.len(), 1);
    assert_eq!(first[0].data, vec![1, 2, 3]);
    assert_eq!(first[0].id, 5);
    assert_eq!(first[0].packet_type, PacketType::Data);
    let big = vec![9u8; CHUNK_SIZE + 1];
    let sizes: Vec<usize> = stream.push(&big).iter().map(|p| p.data.len()).collect();
    assert_eq!(sizes, vec![CHUNK_SIZE, 1]);
    assert!(!stream.is_closed());
    let last = stream.push(&[]);
    assert_eq!(last.len(), 1);
    assert!(last[0].data.is_empty());
    assert_eq!(last[0].id, 5);
    assert!(stream.is_closed());
    assert!(stream.push(&[1]).is_empty());
    assert!(stream.push(&[]).is_empty());
    assert!(stream.is_closed());
    assert!(chunk_packets(1, &[]).is_empty());
}

#[test]
fn headers_without_dir_name_ask_for_the_context() {
    let plan = interpret_headers(&Headers { dir_name: None, followpaths: Vec::new() });
    assert_eq!(plan, Plan::FullContext { filter: None });

    let plan = interpret_headers(&Headers {
        dir_name: Some("context".to_string()),
        followpaths: vec!["a/b".to_string()],
    });
    match plan {
        Plan::FullContext { filter: Some(f) } => {
            assert!(f.contains("a"));
            assert!(f.contains("a/b"));
            assert!(!f.contains("b"));
        }
        other => panic!("unexpected plan {:?}", other),
    }
}

#[test]
fn dockerfile_headers_name_the_dockerfile() {
    let plain = Headers { dir_name: Some("dockerfile".to_string()), followpaths: Vec::new() };
    assert_eq!(
        interpret_headers(&plain),
        Plan::DockerfileOnly { name: "Dockerfile".to_string() }
    );
    let named = Headers {
        dir_name: Some("dockerfile".to_string()),
        followpaths: vec!["prod.Dockerfile".to_string(), "x".to_string()],
    };
    assert_eq!(
        interpret_headers(&named),
        Plan::DockerfileOnly { name: "prod.Dockerfile".to_string() }
    );
    let other = Headers {
        dir_name: Some("dockerfile".to_string()),
        followpaths: vec!["Dockerfile.prod".to_string()],
    };
    assert_eq!(
        interpret_headers(&other),
        Plan::DockerfileOnly { name: "Dockerfile".to_string() }
    );
    let upper = Headers { dir_name: Some("Dockerfile".to_string()), followpaths: Vec::new() };
    assert_eq!(interpret_headers(&upper), Plan::FullContext { filter: None });
}

#[test]
fn dockerfile_only_call_runs_to_the_end() {
    let mut engine = DiffCopy::new("/ctx", LIMIT);
    let step = engine.start_dockerfile("Dockerfile", Some(FileMeta { mode: 0o100644, size: 12 }));
    assert!(step.report.is_none());
    assert_eq!(step.actions.len(), 2);
    match &step.actions[0] {
        Action::Send(p) => {
            assert_eq!(p.packet_type, PacketType::Stat);
            assert_eq!(p.id, 0);
            let stat = p.stat.as_ref().unwrap();
            assert_eq!(stat.path, "Dockerfile");
            assert_eq!(stat.mode, 0o644);
            assert_eq!(stat.size, 12);
        }
        other => panic!("unexpected action {:?}", other),
    }
    assert_eq!(step.actions[1], Action::Send(sentinel()));
    assert_eq!(engine.phase(), Phase::Serving);

    let step = engine.on_data(&req(0));
    assert_eq!(
        step,
        Step {
            actions: vec![Action::SendFile { id: 0, path: "/ctx/Dockerfile".to_string() }],
            report: None
        }
    );
    let data = file_data_packets(0, b"FROM alpine\n");
    assert_eq!(data.len(), 2);
    assert_eq!(data[0].data, b"FROM alpine\n".to_vec());
    assert_eq!(data[0].id, 0);
    assert!(data[1].data.is_empty());
    assert_eq!(data[1].id, 0);

    let step = engine.on_data(&fin());
    assert_eq!(
        step,
        Step { actions: vec![Action::Send(make_fin()), ok_trailers()], report: None }
    );
    assert_eq!(engine.phase(), Phase::Done);
}

#[test]
fn a_missing_dockerfile_fails_the_call() {
    let mut engine = DiffCopy::new("/ctx", LIMIT);
    let step = engine.start_dockerfile("Dockerfile", None);
    assert_eq!(step.report, Some(Error::PathNotFound("/ctx/Dockerfile".to_string())));
    assert_eq!(
        step.actions,
        vec![Action::Trailers {
            status: 5,
            message: "Path does not exist: /ctx/Dockerfile".to_string()
        }]
    );
    assert_eq!(engine.phase(), Phase::Failed);
}

#[test]
fn listing_ends_with_one_sentinel() {
    let mut engine = DiffCopy::new("/ctx", LIMIT);
    let step = engine.start_context(&context(), None);
    let packets: Vec<&Packet> = step
        .actions
        .iter()
        .map(|a| match a {
            Action::Send(p) => p,
            other => panic!("unexpected action {:?}", other),
        })
        .collect();
    assert_eq!(packets.len(), 4);
    let ids: Vec<u32> = packets.iter().map(|p| p.id).collect();
    assert_eq!(ids, vec![0, 1, 2, 0]);
    let bodiless = packets.iter().filter(|p| p.stat.is_none()).count();
    assert_eq!(bodiless, 1);
    assert_eq!(*packets[3], sentinel());
}

#[test]
fn directory_size_is_zero_and_file_size_is_kept() {
    let tree = vec![Entry {
        name: "big".to_string(),
        mode: 0o040755,
        size: 4096,
        children: vec![Entry {
            name: "blob".to_string(),
            mode: 0o100600,
            size: 1 << 30,
            children: Vec::new(),
        }],
    }];
    let mut engine = DiffCopy::new("/ctx", LIMIT);
    let step = engine.start_context(&tree, None);
    let stats: Vec<_> = step
        .actions
        .iter()
        .filter_map(|a| match a {
            Action::Send(p) => p.stat.clone(),
            _ => None,
        })
        .collect();
    assert_eq!(stats.len(), 2);
    assert_eq!(stats[0].path, "big");
    assert_ne!(stats[0].mode & GO_MODE_DIR, 0);
    assert_eq!(stats[0].mode, 0x800001ed);
    assert_eq!(stats[0].size, 0);
    assert_eq!(stats[1].path, "big/blob");
    assert_eq!(stats[1].mode, 0o600);
    assert_eq!(stats[1].size, 1 << 30);
}

#[test]
fn stat_record_holds_nothing_but_path_mode_and_size() {
    let stat = item_stat(&WalkItem { path: "a/b".to_string(), mode: 0o104755, size: 77 });
    assert_eq!(stat.path, "a/b");
    assert_eq!(stat.mode, 0x00800000 | 0o755);
    assert_eq!(stat.size, 77);
    assert_eq!(stat.uid, 0);
    assert_eq!(stat.gid, 0);
    assert_eq!(stat.mod_time, 0);
    assert_eq!(stat.linkname, "");
    assert_eq!(stat.devmajor, 0);
    assert_eq!(stat.devminor, 0);
    assert!(stat.xattrs.is_empty());
    let huge = item_stat(&WalkItem { path: "h".to_string(), mode: 0o100644, size: u64::MAX });
    assert_eq!(huge.size, i64::MAX);
}

#[test]
fn requests_are_answered_in_order_and_unknown_ids_ignored() {
    let mut engine = serving();
    let mut inbound = req(2);
    inbound.extend(req(1));
    inbound.extend(req(99));
    inbound.extend(req(0));
    let step = engine.on_data(&inbound);
    assert!(step.report.is_none());
    assert_eq!(
        step.actions,
        vec![
            Action::SendFile { id: 2, path: "/ctx/app/main.txt".to_string() },
            Action::SendFile { id: 0, path: "/ctx/Dockerfile".to_string() },
        ]
    );
    assert_eq!(engine.phase(), Phase::Serving);
}

#[test]
fn a_frame_split_over_two_chunks_is_read_once_it_is_whole() {
    let mut engine = serving();
    let frame = req(0);
    let (head, tail) = frame.split_at(3);
    let step = engine.on_data(head);
    assert_eq!(step, Step { actions: Vec::new(), report: None });
    assert_eq!(engine.inbound, head.to_vec());
    let step = engine.on_data(tail);
    assert_eq!(
        step.actions,
        vec![Action::SendFile { id: 0, path: "/ctx/Dockerfile".to_string() }]
    );
    assert!(engine.inbound.is_empty());
}

#[test]
fn packets_of_other_types_are_passed_over() {
    let mut engine = serving();
    let stray = Packet { packet_type: PacketType::Data, stat: None, id: 0, data: vec![1, 2] };
    let mut inbound = frame_packet(&stray).unwrap();
    inbound.extend(frame_packet(&sentinel()).unwrap());
    let step = engine.on_data(&inbound);
    assert_eq!(step, Step { actions: Vec::new(), report: None });
    assert_eq!(engine.phase(), Phase::Serving);
}

#[test]
fn fin_after_requests_closes_with_fin_then_trailers() {
    let mut engine = serving();
    let mut inbound = req(0);
    inbound.extend(fin());
    inbound.extend(req(2));
    let step = engine.on_data(&inbound);
    assert!(step.report.is_none());
    assert_eq!(
        step.actions,
        vec![
            Action::SendFile { id: 0, path: "/ctx/Dockerfile".to_string() },
            Action::Send(make_fin()),
            ok_trailers(),
        ]
    );
    assert_eq!(engine.phase(), Phase::Done);
    let later = engine.on_data(&req(0));
    assert!(later.actions.is_empty());
    assert!(matches!(later.report, Some(Error::Protocol(_))));
    assert_eq!(engine.phase(), Phase::Done);
}

#[test]
fn close_without_fin_is_reported_and_still_closed() {
    let mut engine = serving();
    let step = engine.on_close();
    assert_eq!(step.report, Some(Error::UnexpectedClose));
    assert_eq!(step.actions, vec![Action::Send(make_fin()), ok_trailers()]);
    assert_eq!(engine.phase(), Phase::Done);
    let again = engine.on_close();
    assert_eq!(again, Step { actions: Vec::new(), report: None });
}

#[test]
fn a_compressed_frame_fails_the_call() {
    let mut engine = serving();
    let mut frame = req(0);
    frame[0] = 1;
    let step = engine.on_data(&frame);
    assert!(matches!(step.report, Some(Error::Protocol(_))));
    assert_eq!(step.actions.len(), 1);
    match &step.actions[0] {
        Action::Trailers { status, message } => {
            assert_eq!(*status, 2);
            assert_eq!(message, &step.report.as_ref().unwrap().message());
        }
        other => panic!("unexpected action {:?}", other),
    }
    assert_eq!(engine.phase(), Phase::Failed);
}

#[test]
fn a_frame_over_the_limit_fails_the_call() {
    let mut engine = DiffCopy::new("/ctx", 8);
    engine.start_context(&context(), None);
    let step = engine.on_data(&[0, 0, 0, 0, 9]);
    assert!(matches!(step.report, Some(Error::Protocol(_))));
    assert_eq!(engine.phase(), Phase::Failed);
}

#[test]
fn a_malformed_packet_fails_the_call_after_earlier_requests() {
    let mut engine = serving();
    let mut inbound = req(0);
    inbound.extend(vec![0, 0, 0, 0, 2, 0x08, 0x09]);
    let step = engine.on_data(&inbound);
    assert_eq!(
        step.report,
        Some(Error::Protocol("an inbound frame holds no well-formed packet".to_string()))
    );
    assert_eq!(
        step.actions,
        vec![
            Action::SendFile { id: 0, path: "/ctx/Dockerfile".to_string() },
            Action::Trailers {
                status: 2,
                message: "Protocol error: an inbound frame holds no well-formed packet"
                    .to_string()
            },
        ]
    );
    assert_eq!(engine.phase(), Phase::Failed);
}

#[test]
fn steps_out_of_phase_are_refused() {
    let mut engine = DiffCopy::new("/ctx", LIMIT);
    let step = engine.on_data(&req(0));
    assert!(step.actions.is_empty());
    assert!(matches!(step.report, Some(Error::Protocol(_))));
    assert_eq!(engine.phase(), Phase::Ready);
    let step = engine.on_close();
    assert!(matches!(step.report, Some(Error::Protocol(_))));

    let mut engine = serving();
    let step = engine.start_context(&context(), None);
    assert!(step.actions.is_empty());
    assert!(matches!(step.report, Some(Error::Protocol(_))));
    let step = engine.start_dockerfile("Dockerfile", None);
    assert!(step.actions.is_empty());
    assert_eq!(engine.phase(), Phase::Serving);
}

#[test]
fn an_outside_failure_closes_the_call_with_its_error() {
    let mut engine = serving();
    let step = engine.fail(Error::Io("disk gone".to_string()));
    assert_eq!(step.report, Some(Error::Io("disk gone".to_string())));
    assert_eq!(
        step.actions,
        vec![Action::Trailers { status: 2, message: "File system error: disk gone".to_string() }]
    );
    assert_eq!(engine.phase(), Phase::Failed);
    let again = engine.fail(Error::SessionNotStarted);
    assert_eq!(again, Step { actions: Vec::new(), report: None });
}

fn protocol(text: &str) -> Option<Error> {
    Some(Error::Protocol(text.to_string()))
}

#[test]
fn protocol_errors_say_what_was_wrong() {
    assert_eq!(MAX_INBOUND_FRAME, 4 * 1024 * 1024);
    let mut engine = DiffCopy::new("/ctx", 8);
    assert_eq!(
        engine.on_data(&req(0)).report,
        protocol("the call is not in the phase for this step")
    );
    engine.start_context(&context(), None);
    assert_eq!(
        engine.start_context(&context(), None).report,
        protocol("the call is not in the phase for this step")
    );
    let step = engine.on_data(&[0, 0, 0, 0, 9]);
    assert_eq!(step.report, protocol("an inbound frame exceeds the limit"));
    assert_eq!(
        step.actions,
        vec![Action::Trailers {
            status: 2,
            message: "Protocol error: an inbound frame exceeds the limit".to_string()
        }]
    );
    let mut engine = serving();
    assert_eq!(
        engine.on_data(&[1, 0, 0, 0, 0]).report,
        protocol("compressed frames are not supported")
    );
    assert!(engine.inbound.is_empty());
}

#[test]
fn starting_a_call_leaves_kept_bytes_and_a_failed_start_leaves_the_listing() {
    let mut engine = DiffCopy::new("/ctx", LIMIT);
    engine.start_dockerfile("Dockerfile", None);
    assert!(engine.items.is_empty());
    assert!(engine.inbound.is_empty());
    let mut engine = DiffCopy::new("/ctx", LIMIT);
    engine.start_dockerfile("Dockerfile", Some(FileMeta { mode: 0o100644, size: 12 }));
    assert!(engine.inbound.is_empty());
    let mut inbound = req(0);
    inbound.extend(fin());
    let step = engine.on_data(&inbound);
    assert_eq!(
        step.actions,
        vec![
            Action::SendFile { id: 0, path: "/ctx/Dockerfile".to_string() },
            Action::Send(make_fin()),
            ok_trailers(),
        ]
    );
}

#[test]
fn a_file_that_cannot_be_read_fails_the_call_even_after_fin() {
    let mut engine = serving();
    let mut inbound = req(0);
    inbound.extend(fin());
    let step = engine.on_data(&inbound);
    assert_eq!(step.actions.len(), 3);
    assert_eq!(engine.phase(), Phase::Done);
    let failed = engine.file_failed(Error::Io("gone".to_string()));
    assert_eq!(failed.report, Some(Error::Io("gone".to_string())));
    assert_eq!(
        failed.actions,
        vec![Action::Trailers { status: 2, message: "File system error: gone".to_string() }]
    );
    assert_eq!(engine.phase(), Phase::Failed);
    let again = engine.file_failed(Error::Io("gone".to_string()));
    assert_eq!(again, Step { actions: Vec::new(), report: None });

    let mut engine = serving();
    engine.on_data(&req(0));
    let failed = engine.file_failed(Error::Io("gone".to_string()));
    assert_eq!(failed.actions.len(), 1);
    assert_eq!(engine.phase(), Phase::Failed);

    let mut fresh = DiffCopy::new("/ctx", LIMIT);
    assert!(fresh.files.is_empty());
    let nothing = fresh.file_failed(Error::Io("gone".to_string()));
    assert_eq!(nothing, Step { actions: Vec::new(), report: None });
    assert_eq!(fresh.phase(), Phase::Ready);
}

#[test]
fn many_requests_for_one_file_give_as_many_whole_runs() {
    let mut engine = serving();
    let mut inbound = Vec::new();
    for _ in 0..5 {
        inbound.extend(req(2));
    }
    inbound.extend(fin());
    let (head, tail) = inbound.split_at(7);
    let first = engine.on_data(head);
    let second = engine.on_data(tail);
    let mut actions = first.actions;
    actions.extend(second.actions);
    assert_eq!(actions.len(), 7);
    let content = vec![3u8; CHUNK_SIZE + 5];
    let mut sent = Vec::new();
    for action in &actions[..5] {
        match action {
            Action::SendFile { id, path } => {
                assert_eq!((*id, path.as_str()), (2, "/ctx/app/main.txt"));
                sent.extend(file_data_packets(*id, &content));
            }
            other => panic!("unexpected action {:?}", other),
        }
    }
    assert_eq!(sent.len(), 15);
    for run in sent.chunks(3) {
        let sizes: Vec<usize> = run.iter().map(|p| p.data.len()).collect();
        assert_eq!(sizes, vec![CHUNK_SIZE, 5, 0]);
        assert!(run.iter().all(|p| p.id == 2 && p.packet_type == PacketType::Data));
    }
    assert_eq!(actions[5], Action::Send(make_fin()));
    assert_eq!(actions[6], ok_trailers());
}
