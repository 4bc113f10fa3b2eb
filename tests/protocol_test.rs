use ide::error::ProtocolError;
use ide::frame::{Frame, FrameType};
use ide::packet::PackageSender;
use ide::protocol::{Client, ClientRequester, Server};
use ide::reader::PackageReceiver;
use ide::schema::{Request, RequestKind, Response, Status, Update, WireProject};
use ide::session::{respond, respond_unhandled, unsupported, BidirectStream, Inbound, Notice};
use ide::wire::{read_varint, read_varint32, write_varint};
use ide::Project;

fn make_test_projects() -> Vec<Project> {
    vec![
        Project {
            name: String::from("a"),
            path: String::from("/a/a/a"),
            session_file: None,
            exists: true,
        },
        Project {
            name: String::from("b"),
            path: String::from("/b/b/b"),
            session_file: None,
            exists: true,
        },
    ]
}

fn list_request() -> Request {
    Request { payload: Some(RequestKind::ListProjects) }
}

/// Splits written bytes into whole frames.
fn frames_of(bytes: Vec<u8>) -> Vec<(FrameType, u8, Vec<u8>)> {
    let mut r = PackageReceiver::new();
    r.push(bytes);
    let mut out = Vec::new();
    while let Ok(Some(f)) = r.read_package() {
        out.push(f);
    }
    out
}

fn frame(typ: FrameType, seq: u8, payload: &Vec<u8>) -> Vec<u8> {
    PackageSender::write_package(typ, seq, payload).unwrap()
}

#[test]
fn server_list_projects() {
    let prjcts = make_test_projects();
    let server = Server::new(prjcts.clone());
    let res = server.list_projects();
    assert!(res.is_ok());
    let res = ClientRequester::new().list_projects(&res.unwrap()).unwrap();
    assert_eq!(prjcts, res);
}

#[test]
fn server_list_projects_next() {
    let prjcts = make_test_projects();
    let server = Server::new(prjcts.clone());
    let mut stream: BidirectStream<()> = BidirectStream::new();
    stream.receive(frame(FrameType::Request, 1, &list_request().encode()));
    let mut written = Vec::new();
    match stream.next_inbound() {
        Ok(Inbound::Request(seq, req)) => {
            assert_eq!(seq, 1);
            written = respond(seq, server.on_request(&req)).unwrap();
        }
        _ => panic!("a request was expected"),
    }
    assert!(matches!(stream.next_inbound(), Ok(Inbound::Pending)));
    let frames = frames_of(written);
    assert_eq!(frames.len(), 1);
    assert_eq!(frames[0].0, FrameType::Response);
    assert_eq!(frames[0].1, 1);
    let rsp = Response::decode(&frames[0].2).unwrap();
    assert_eq!(rsp.status, Status::Success);
    let got = ClientRequester::new().list_projects(&frames[0].2).unwrap();
    assert_eq!(prjcts[0], got[0]);
    assert_eq!(prjcts[1], got[1]);
}

#[test]
fn client_list_projects() {
    let prjcts = make_test_projects();
    let requester = ClientRequester::new();
    let mut client: BidirectStream<u32> = BidirectStream::new();
    let (seq, written) = client.send_request(&requester.list_projects_request(), 7).unwrap();
    let frames = frames_of(written);
    assert_eq!(frames.len(), 1);
    assert_eq!(frames[0].0, FrameType::Request);
    assert!(Request::decode(&frames[0].2).unwrap().payload == Some(RequestKind::ListProjects));
    let canned = Server::new(prjcts.clone()).list_projects().unwrap();
    client.receive(frame(FrameType::Response, seq, &canned));
    match client.next_inbound() {
        Ok(Inbound::Deliver(waiter, payload)) => {
            assert_eq!(waiter, 7);
            let res = requester.list_projects(&payload);
            assert!(res.is_ok());
            assert_eq!(res.unwrap(), prjcts);
        }
        _ => panic!("a response was expected"),
    }
}

#[test]
fn server_client_list_projects() {
    let prjcts = make_test_projects();
    let server = Server::new(prjcts.clone());
    let requester = ClientRequester::new();
    let mut left: BidirectStream<&str> = BidirectStream::new();
    let mut right: BidirectStream<()> = BidirectStream::new();

    let to_server = left
        .handle_notice(Notice::RequestTask(requester.list_projects_request(), "waiter"))
        .unwrap();
    right.receive(to_server);
    let to_client = match right.next_inbound() {
        Ok(Inbound::Request(seq, req)) => respond(seq, server.on_request(&req)).unwrap(),
        _ => panic!("a request was expected"),
    };
    let frames = frames_of(to_client.clone());
    assert_eq!(frames.len(), 1);
    assert_eq!(frames[0].0, FrameType::Response);
    left.receive(to_client);
    match left.next_inbound() {
        Ok(Inbound::Deliver(w, payload)) => {
            assert_eq!(w, "waiter");
            assert_eq!(requester.list_projects(&payload).unwrap(), prjcts);
        }
        _ => panic!("a response was expected"),
    }
}

#[test]
fn bidir_stream_request() {
    let prjcts = make_test_projects();
    let mut stream: BidirectStream<u8> = BidirectStream::new();
    let (seq, written) = stream.send_request(&list_request(), 0).unwrap();
    let frames = frames_of(written);
    assert_eq!(frames[0].0, FrameType::Request);
    assert!(Request::decode(&frames[0].2).unwrap() == list_request());
    let rsp = Server::new(prjcts.clone()).list_projects().unwrap();
    stream.receive(frame(FrameType::Response, seq, &rsp));
    match stream.next_inbound() {
        Ok(Inbound::Deliver(_, payload)) => {
            assert_eq!(payload, rsp);
        }
        _ => panic!("a response was expected"),
    }
}

#[test]
fn unknown_sequence_fails() {
    let mut stream: BidirectStream<()> = BidirectStream::new();
    stream.receive(frame(FrameType::Response, 42, &Vec::new()));
    assert!(matches!(stream.next_inbound(), Err(ProtocolError::UnknownSequence)));
}

#[test]
fn second_response_for_same_seq_fails() {
    let mut stream: BidirectStream<u8> = BidirectStream::new();
    let (seq, _) = stream.send_request(&list_request(), 5).unwrap();
    stream.receive(frame(FrameType::Response, seq, &Vec::new()));
    stream.receive(frame(FrameType::Response, seq, &Vec::new()));
    assert!(matches!(stream.next_inbound(), Ok(Inbound::Deliver(5, _))));
    assert!(matches!(stream.next_inbound(), Err(ProtocolError::UnknownSequence)));
}

#[test]
fn handler_error_is_reported() {
    let mut stream: BidirectStream<()> = BidirectStream::new();
    stream.receive(frame(FrameType::Request, 3, &list_request().encode()));
    let written = match stream.next_inbound() {
        Ok(Inbound::Request(seq, _)) => respond(seq, Err(String::from("TEST"))).unwrap(),
        _ => panic!("a request was expected"),
    };
    let frames = frames_of(written);
    assert_eq!(frames.len(), 1);
    assert_eq!(frames[0].1, 3);
    let rsp = Response::decode(&frames[0].2).unwrap();
    assert_eq!(rsp.status, Status::InternalError);
    assert_eq!(rsp.error, "TEST");
    assert!(rsp.list_projects.is_none());
}

#[test]
fn unknown_request_is_refused_by_handlers() {
    let server = Server::new(make_test_projects());
    let empty = Request { payload: None };
    let rsp = server.on_request(&empty).unwrap();
    assert_eq!(rsp.status, Status::NotImplemented);
    assert_eq!(rsp.error, "Not implemented yet");
    assert!(rsp.list_projects.is_none());
    let rsp = Client::new().on_request(&list_request()).unwrap();
    assert_eq!(rsp.status, Status::NotImplemented);
    let rsp = unsupported();
    assert_eq!(rsp.status, Status::NotImplemented);
    assert_eq!(rsp.error, "This side does not process requests.");
}

#[test]
fn server_answers_unknown_request_not_implemented() {
    let server = Server::new(make_test_projects());
    let mut stream: BidirectStream<()> = BidirectStream::new();
    stream.receive(frame(FrameType::Request, 6, &Request { payload: None }.encode()));
    let written = match stream.next_inbound() {
        Ok(Inbound::Request(seq, req)) => respond(seq, server.on_request(&req)).unwrap(),
        _ => panic!("a request was expected"),
    };
    let frames = frames_of(written);
    assert_eq!(frames.len(), 1);
    assert_eq!(frames[0].0, FrameType::Response);
    assert_eq!(frames[0].1, 6);
    assert_eq!(Response::decode(&frames[0].2).unwrap().status, Status::NotImplemented);
    let unhandled = frames_of(respond_unhandled(9).unwrap());
    assert_eq!(unhandled[0].1, 9);
    let rsp = Response::decode(&unhandled[0].2).unwrap();
    assert_eq!(rsp.status, Status::NotImplemented);
    assert_eq!(rsp.error, "This side does not process requests.");
}

#[test]
fn frame_type_three_fails() {
    assert!(Frame::decode(&[3, 1, 0, 0]).is_none());
    let mut stream: BidirectStream<()> = BidirectStream::new();
    stream.receive(vec![3, 1, 0, 0]);
    assert!(matches!(stream.next_inbound(), Err(ProtocolError::MalformedFrame)));
}

#[test]
fn frame_header_round_trip() {
    let f = Frame::new(FrameType::Response, 9, 65535);
    let b = f.encode();
    assert_eq!(b, vec![2, 9, 0xff, 0xff]);
    assert_eq!(Frame::decode(&b), Some(f));
    let g = Frame::new(FrameType::Notify, 0, 0x0102);
    assert_eq!(g.encode(), vec![0, 0, 1, 2]);
    assert_eq!(Frame::decode(&[1, 200, 0x12, 0x34]), Some(Frame::new(FrameType::Request, 200, 0x1234)));
    assert_eq!(Frame::len(), 4);
}

#[test]
fn largest_payload_round_trips() {
    let payload = vec![7u8; 65535];
    let bytes = frame(FrameType::Notify, 4, &payload);
    assert_eq!(bytes.len(), 4 + 65535);
    let frames = frames_of(bytes);
    assert_eq!(frames.len(), 1);
    assert_eq!(frames[0].2, payload);
    let too_big = vec![0u8; 65536];
    assert_eq!(
        PackageSender::write_package(FrameType::Notify, 4, &too_big),
        Err(ProtocolError::PayloadTooLarge)
    );
}

#[test]
fn frames_split_across_buffers() {
    let mut r = PackageReceiver::new();
    let bytes = frame(FrameType::Request, 5, &vec![1, 2, 3]);
    r.push(bytes[..2].to_vec());
    assert_eq!(r.read_package(), Ok(None));
    r.push(bytes[2..5].to_vec());
    assert_eq!(r.read_package(), Ok(None));
    r.push(bytes[5..].to_vec());
    assert_eq!(r.read_package(), Ok(Some((FrameType::Request, 5, vec![1, 2, 3]))));
    assert_eq!(r.read_package(), Ok(None));
}

#[test]
fn sequence_ids_wrap_after_255() {
    let mut s = PackageSender::new();
    assert_eq!(s.next_seq_id(), 1);
    for _ in 1..255 {
        s.next_seq_id();
    }
    assert_eq!(s.peek_seq_id(), 1);
    assert_eq!(s.next_seq_id(), 1);
    assert_eq!(s.next_seq_id(), 2);
    let mut stream: BidirectStream<()> = BidirectStream::new();
    let mut last = 0;
    for _ in 0..255 {
        last = stream.send_update(&Update {}).0;
    }
    assert_eq!(last, 255);
    assert_eq!(stream.send_update(&Update {}).0, 1);
}

#[test]
fn full_table_refuses_requests() {
    let mut stream: BidirectStream<u32> = BidirectStream::new();
    for i in 0..255u32 {
        assert!(stream.send_request(&list_request(), i).is_ok());
    }
    assert!(matches!(
        stream.send_request(&list_request(), 999),
        Err(ProtocolError::SequenceInUse)
    ));
    let waiting = stream.abort_all();
    assert_eq!(waiting.len(), 255);
    assert_eq!(waiting.get(&1), Some(&0));
    assert!(stream.send_request(&list_request(), 1000).is_ok());
}

#[test]
fn notifications_are_handed_on() {
    let mut stream: BidirectStream<()> = BidirectStream::new();
    let (seq, bytes) = stream.send_update(&Update {});
    assert_eq!(bytes, vec![0, seq, 0, 0]);
    let mut other: BidirectStream<()> = BidirectStream::new();
    other.receive(bytes);
    assert!(matches!(other.next_inbound(), Ok(Inbound::Update(_))));
}

#[test]
fn response_with_too_large_body_is_refused() {
    let mut ps = Vec::new();
    for _ in 0..7000 {
        ps.push(WireProject { name: String::from("name"), path: String::from("/some/path") });
    }
    let rsp = Response { status: Status::Success, error: String::new(), list_projects: Some(ps) };
    assert_eq!(respond(1, Ok(rsp)), Err(ProtocolError::PayloadTooLarge));
}

#[test]
fn response_codec_round_trip() {
    let rsp = Response {
        status: Status::NotImplemented,
        error: String::from("é nope"),
        list_projects: Some(vec![
            WireProject { name: String::from("a"), path: String::from("/a/a/a") },
            WireProject { name: String::new(), path: String::from("/") },
        ]),
    };
    let bytes = rsp.encode();
    assert_eq!(Response::decode(&bytes), Some(rsp));
    let empty = Response { status: Status::Success, error: String::new(), list_projects: None };
    assert!(empty.encode().is_empty());
    assert_eq!(list_request().encode(), vec![0x0a, 0x00]);
    assert!(Request { payload: None }.encode().is_empty());
    assert!(Response::decode(&[0x0a]).is_none());
}

#[test]
fn varints() {
    let mut out = Vec::new();
    write_varint(&mut out, 300);
    assert_eq!(out, vec![0xac, 0x02]);
    assert_eq!(read_varint(&out, 0), Some((300, 2)));
    let mut big = Vec::new();
    write_varint(&mut big, u64::MAX);
    assert_eq!(big.len(), 10);
    assert_eq!(read_varint(&big, 0), Some((u64::MAX, 10)));
    assert_eq!(read_varint(&[0x80, 0x80], 0), None);
}

#[test]
fn encoding_matches_protobuf_runtime() {
    let rsp = Response {
        status: Status::InternalError,
        error: String::from("bad"),
        list_projects: Some(vec![WireProject { name: String::from("a"), path: String::from("/a") }]),
    };
    let mine = rsp.encode();

    let mut project = Vec::new();
    {
        let mut os = protobuf::CodedOutputStream::vec(&mut project);
        os.write_string(1, "a").unwrap();
        os.write_string(2, "/a").unwrap();
        os.flush().unwrap();
    }
    let mut list = Vec::new();
    {
        let mut os = protobuf::CodedOutputStream::vec(&mut list);
        os.write_bytes(1, &project).unwrap();
        os.flush().unwrap();
    }
    let mut theirs = Vec::new();
    {
        let mut os = protobuf::CodedOutputStream::vec(&mut theirs);
        os.write_enum(1, 1).unwrap();
        os.write_string(2, "bad").unwrap();
        os.write_bytes(10, &list).unwrap();
        os.flush().unwrap();
    }
    assert_eq!(mine, theirs);

    // An unknown field is skipped on decode.
    let mut extended = theirs.clone();
    {
        let mut os = protobuf::CodedOutputStream::vec(&mut extended);
        os.write_int32(15, -1).unwrap();
        os.flush().unwrap();
    }
    assert_eq!(Response::decode(&extended), Some(rsp));
}

#[test]
fn response_without_body_is_missing_body() {
    let rsp = Response { status: Status::Success, error: String::new(), list_projects: None };
    assert_eq!(
        ClientRequester::new().list_projects(&rsp.encode()),
        Err(ProtocolError::MissingBody)
    );
    assert_eq!(ClientRequester::new().list_projects(&[0xff]), Err(ProtocolError::DecodeFailure));
}

#[test]
fn undecodable_request_fails() {
    let mut stream: BidirectStream<()> = BidirectStream::new();
    stream.receive(frame(FrameType::Request, 1, &vec![0x0a, 0x05, 0x01]));
    assert!(matches!(stream.next_inbound(), Err(ProtocolError::DecodeFailure)));
    let mut other: BidirectStream<()> = BidirectStream::new();
    other.receive(frame(FrameType::Notify, 1, &vec![0x00]));
    assert!(matches!(other.next_inbound(), Err(ProtocolError::DecodeFailure)));
}

#[test]
fn unknown_groups_are_skipped() {
    let rsp = Response {
        status: Status::InternalError,
        error: String::from("bad"),
        list_projects: None,
    };
    let mut bytes = rsp.encode();
    // Field 20 as a group holding one varint field and a nested group.
    bytes.extend_from_slice(&[0xa3, 0x01, 0x08, 0x05, 0xab, 0x01, 0xac, 0x01, 0xa4, 0x01]);
    assert_eq!(Response::decode(&bytes), Some(rsp.clone()));
    // A group that runs to the end of the message is skipped too.
    let mut open = rsp.encode();
    open.extend_from_slice(&[0xa3, 0x01, 0x08, 0x05]);
    assert_eq!(Response::decode(&open), Some(rsp.clone()));
    // A closing tag out of place is refused.
    let mut stray = rsp.encode();
    stray.extend_from_slice(&[0xa4, 0x01]);
    assert_eq!(Response::decode(&stray), None);
    // protobuf's own skipping agrees on the group.
    let mut is = protobuf::CodedInputStream::from_bytes(&bytes[rsp.encode().len()..]);
    let tag = is.read_raw_tag_or_eof().unwrap().unwrap();
    assert_eq!(tag, 0xa3);
    is.skip_field(protobuf::rt::WireType::StartGroup).unwrap();
    assert!(is.eof().unwrap());
}

#[test]
fn varint32_bounds() {
    assert_eq!(read_varint32(&[0xff, 0xff, 0xff, 0xff, 0x0f], 0), Some((u32::MAX, 5)));
    assert_eq!(read_varint32(&[0xff, 0xff, 0xff, 0xff, 0x10], 0), None);
    assert_eq!(read_varint32(&[0x80, 0x80, 0x80, 0x80, 0x80, 0x00], 0), None);
    assert_eq!(read_varint(&[0xff, 0xff, 0xff, 0xff, 0xff, 0xff, 0xff, 0xff, 0xff, 0x02], 0), None);
    assert_eq!(read_varint(&[5], 1), None);
    // A tag beyond 32 bits is refused.
    assert_eq!(Response::decode(&[0x80, 0x80, 0x80, 0x80, 0x80, 0x01, 0x00]), None);
}

#[test]
fn every_waiter_is_answered_or_handed_back() {
    let mut stream: BidirectStream<u32> = BidirectStream::new();
    let (a, _) = stream.send_request(&list_request(), 10).unwrap();
    let (_, _) = stream.send_request(&list_request(), 11).unwrap();
    let (_, _) = stream.send_request(&list_request(), 12).unwrap();
    stream.receive(frame(FrameType::Response, a, &Vec::new()));
    assert!(matches!(stream.next_inbound(), Ok(Inbound::Deliver(10, _))));
    stream.receive(vec![3, 0, 0, 0]);
    assert!(matches!(stream.next_inbound(), Err(ProtocolError::MalformedFrame)));
    let rest: Vec<u32> = stream.abort_all().into_values().collect();
    assert_eq!(rest, vec![11, 12]);
}
