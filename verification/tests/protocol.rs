//! The wire protocol: round trips for every message kind, the discriminant
//! front door, and the error taxonomy of decoding.

use emacs_remote::envelope::encode_rec_tag;
use emacs_remote::envelope::encode_rec_u64;
use emacs_remote::envelope::peek_tag;
use emacs_remote::errors::ProtocolError;
use emacs_remote::messages::index::IndexRequest;
use emacs_remote::messages::index::IndexResponse;
use emacs_remote::messages::ls::LsRequest;
use emacs_remote::messages::ls::LsResponse;
use emacs_remote::messages::messagetype::MessageType;
use emacs_remote::messages::messagetype::MessageTypeTrait;
use emacs_remote::requests::exit_request::ExitRequest;
use emacs_remote::requests::exit_request::ExitResponse;
use emacs_remote::requests::init_request::InitRequest;
use emacs_remote::requests::msg_request::MsgRequest;
use emacs_remote::requests::msg_request::MsgResponse;
use emacs_remote::requests::payload::Decode;
use emacs_remote::requests::payload::Encode;
use emacs_remote::requests::payload::Payload;
use emacs_remote::requests::request::Request;
use emacs_remote::requests::request::Response;
use emacs_remote::requests::shell_request::ShellRequest;
use emacs_remote::requests::shell_request::ShellResponse;
use emacs_remote::requests::types::PayloadType;

#[test]
fn index_request_round_trip() {
    let m = IndexRequest::new(7, "/home/u/project".to_string());
    assert!(m.is_valid());
    let bytes = m.as_bytes();
    let back = IndexRequest::from_bytes(&bytes).unwrap();
    assert!(back.is_valid());
    assert_eq!(back.prev_hash, 7);
    assert_eq!(back.index_path, "/home/u/project".to_string());
    assert_eq!(back.message_type, MessageType::IndexRequest.tag());
}

#[test]
fn index_response_round_trip() {
    let m = IndexResponse::new(0xdead_beef_0102_0304, "/srv/x.index".to_string());
    let bytes = m.as_bytes();
    let back = IndexResponse::from_bytes(&bytes).unwrap();
    assert_eq!(back.hash, 0xdead_beef_0102_0304);
    assert_eq!(back.path_to_index_file, "/srv/x.index".to_string());
    assert_eq!(back.message_type, MessageType::IndexResponse.tag());
}

#[test]
fn ls_round_trips() {
    let q = LsRequest::new(11, "/proj/dir".to_string());
    let back = LsRequest::from_bytes(&q.as_bytes()).unwrap();
    assert_eq!(back.ls_path, "/proj/dir".to_string());
    assert_eq!(back.prev_hash, 11);

    let p = LsResponse::new(u64::MAX, "/srv/l.index".to_string());
    let back = LsResponse::from_bytes(&p.as_bytes()).unwrap();
    assert_eq!(back.hash, u64::MAX);
    assert_eq!(back.path_to_index_file, "/srv/l.index".to_string());
}

#[test]
fn shell_request_round_trip() {
    let args = vec!["echo".to_string(), "hi".to_string()];
    let m = ShellRequest::new(&"/proj".to_string(), args.clone());
    let bytes = m.as_bytes();
    let back = ShellRequest::from_bytes(&bytes).unwrap();
    assert_eq!(back.project_dir, "/proj".to_string());
    assert_eq!(back.args, args);
}

#[test]
fn shell_request_with_no_args_round_trips() {
    let m = ShellRequest::new(&"".to_string(), Vec::new());
    let back = ShellRequest::from_bytes(&m.as_bytes()).unwrap();
    assert_eq!(back.project_dir, "".to_string());
    assert!(back.args.is_empty());
}

#[test]
fn shell_response_round_trip() {
    let m = ShellResponse::from_output(-9, b"out".to_vec(), b"err".to_vec());
    let bytes = m.as_bytes();
    let back = ShellResponse::from_bytes(&bytes).unwrap();
    assert_eq!(back.status, -9);
    assert_eq!(back.stdout, b"out".to_vec());
    assert_eq!(back.stderr, b"err".to_vec());
}

#[test]
fn exit_round_trips() {
    let q = ExitRequest::new();
    let back = ExitRequest::from_bytes(&q.as_bytes()).unwrap();
    assert_eq!(back, ExitRequest::new());

    let p = ExitResponse::new(3);
    let back = ExitResponse::from_bytes(&p.as_bytes()).unwrap();
    assert_eq!(back.status, 3);
}

#[test]
fn init_and_msg_round_trips() {
    let q = InitRequest::new();
    let back = InitRequest::from_bytes(&q.as_bytes()).unwrap();
    assert_eq!(back.contents, "Hello there!".to_string());

    let m = MsgRequest::new();
    let back = MsgRequest::from_bytes(&m.as_bytes()).unwrap();
    assert_eq!(back.contents, "Hiya!".to_string());

    let m = MsgResponse::new();
    let back = MsgResponse::from_bytes(&m.as_bytes()).unwrap();
    assert_eq!(back.contents, "Hello there!".to_string());
}

#[test]
fn payload_round_trip() {
    let p = Payload::from_request(&ExitRequest::new());
    assert_eq!(p.get_type(), PayloadType::Exit);
    let bytes = p.as_bytes();
    let back = Payload::from_bytes(&bytes).unwrap();
    assert_eq!(back, p);
}

#[test]
fn decoded_discriminant_matches_the_assigned_one() {
    let m = IndexRequest::new(1, "/p".to_string());
    let bytes = m.as_bytes();
    assert_eq!(peek_tag(&bytes), Some(IndexRequest::messagetype().tag()));
    assert_eq!(peek_tag(&bytes), Some(0));

    let m = IndexResponse::new(1, "/p".to_string());
    assert_eq!(peek_tag(&m.as_bytes()), Some(1));

    let m = ShellRequest::new(&"/p".to_string(), vec!["x".to_string()]);
    assert_eq!(peek_tag(&m.as_bytes()), Some(4));

    assert_eq!(peek_tag(&ExitRequest::new().as_bytes()), Some(6));
}

#[test]
fn exact_wire_bytes_of_small_records() {
    // [6] as one fixarray of one element: 0x91, then the unsigned
    // discriminant as 0xcf with eight big-endian bytes.
    assert_eq!(
        encode_rec_tag(6),
        vec![0x91, 0xcf, 0, 0, 0, 0, 0, 0, 0, 6]
    );
    // [7, 0]: a fixarray of two elements.
    assert_eq!(
        encode_rec_u64(7, 0x0102),
        vec![0x92, 0xcf, 0, 0, 0, 0, 0, 0, 0, 7, 0xcf, 0, 0, 0, 0, 0, 0, 1, 2]
    );
}

#[test]
fn type_confusion_is_refused() {
    // An index response decoded as an index request: same shape, other
    // discriminant.
    let bytes = IndexResponse::new(5, "/p".to_string()).as_bytes();
    match IndexRequest::from_bytes(&bytes) {
        Err(e) => assert_eq!(e, ProtocolError::TypeMismatch),
        Ok(_) => panic!("a mistagged record must be refused"),
    }
}

#[test]
fn unknown_discriminant_is_unsupported() {
    // A well-formed record whose discriminant maps to no payload kind.
    let body = encode_rec_tag(6);
    let wrapped = emacs_remote::envelope::encode_rec_bin(99, &body);
    match Payload::from_bytes(&wrapped) {
        Err(e) => assert_eq!(e, ProtocolError::UnsupportedMessageType),
        Ok(_) => panic!("an unknown payload kind must be refused"),
    }
}

#[test]
fn wide_header_forms_are_accepted() {
    // An exit request framed with a 16-bit array header instead of the
    // compact one: a reader takes either form.
    let wide = vec![0xdc, 0x00, 0x01, 0xcf, 0, 0, 0, 0, 0, 0, 0, 6];
    assert!(ExitRequest::from_bytes(&wide).is_ok());
    assert_eq!(peek_tag(&wide), Some(6));

    // An init request whose string uses the wider str8 header.
    let wide_str = vec![0x92, 0xcf, 0, 0, 0, 0, 0, 0, 0, 8, 0xd9, 2, 0x68, 0x69];
    let back = InitRequest::from_bytes(&wide_str).unwrap();
    assert_eq!(back.contents, "hi".to_string());
}

#[test]
fn malformed_bytes_are_refused() {
    let garbage = vec![0xff, 0x13, 0x37];
    match IndexRequest::from_bytes(&garbage) {
        Err(e) => assert_eq!(e, ProtocolError::MalformedEnvelope),
        Ok(_) => panic!("garbage must not decode"),
    }
    match Payload::from_bytes(&garbage) {
        Err(e) => assert_eq!(e, ProtocolError::MalformedEnvelope),
        Ok(_) => panic!("garbage must not decode"),
    }
}

#[test]
fn responses_report_their_exit_codes() {
    assert_eq!(ExitResponse::new(0).run(), Ok(0));
    assert_eq!(ExitResponse::new(9).run(), Err(9));
    assert_eq!(MsgResponse::new().run(), Ok(0));
    let sr = ShellResponse::from_output(0, b"hi\n".to_vec(), Vec::new());
    assert_eq!(sr.run(), Ok(0));
}

#[test]
fn requests_know_their_payload_kind() {
    assert_eq!(ExitRequest::new().get_type(), PayloadType::Exit);
    assert_eq!(MsgRequest::new().get_type(), PayloadType::Msg);
    assert_eq!(
        ShellRequest::new(&"/p".to_string(), Vec::new()).get_type(),
        PayloadType::Shell
    );
}

#[test]
fn command_line_joins_arguments() {
    let m = ShellRequest::new(
        &"/proj".to_string(),
        vec!["echo".to_string(), "hi".to_string()],
    );
    assert_eq!(m.command_line(), "echo hi".to_string());

    let none = ShellRequest::new(&"/proj".to_string(), Vec::new());
    assert_eq!(none.command_line(), "".to_string());

    let one = ShellRequest::new(&"/proj".to_string(), vec!["ls".to_string()]);
    assert_eq!(one.command_line(), "ls".to_string());
}
