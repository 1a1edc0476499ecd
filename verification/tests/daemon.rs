//! The daemon connection loops: loopback dispatch, the server and client
//! registries, and the shell scenario end to end.

use emacs_remote::errors::ProtocolError;
use emacs_remote::messages::index::IndexRequest;
use emacs_remote::requests::dispatch::ConnOutcome;
use emacs_remote::requests::dispatch::handle_stream_request;
use emacs_remote::requests::dispatch::run_response;
use emacs_remote::requests::dispatch::RequestKind;
use emacs_remote::requests::dispatch::ResponseKind;
use emacs_remote::requests::exit_request::ExitRequest;
use emacs_remote::requests::exit_request::ExitResponse;
use emacs_remote::requests::msg_request::MsgRequest;
use emacs_remote::requests::payload::Encode;
use emacs_remote::requests::payload::Payload;
use emacs_remote::requests::request::Response;
use emacs_remote::requests::shell_request::ShellRequest;
use emacs_remote::requests::shell_request::ShellResponse;
use emacs_remote::requests::types::PayloadType;
use emacs_remote::structs::client::ClientAction;
use emacs_remote::structs::client::ClientDaemon;
use emacs_remote::structs::server::ServerAction;
use emacs_remote::structs::server::ServerDaemon;
use emacs_remote::utils::event::Event;
use emacs_remote::utils::shutil::find_command;
use emacs_remote::utils::shutil::which_outcome;
use emacs_remote::utils::shutil::ToolConfig;
use emacs_remote::utils::ssh::agent_status;
use emacs_remote::utils::ssh::auth_user;
use emacs_remote::utils::ssh::session_outcome;
use emacs_remote::utils::ssh::SSHErrorCode;
use emacs_remote::utils::ssh::SshHostConfig;

fn server() -> ServerDaemon {
    ServerDaemon::new(
        "/home/u/.emacs_remote".to_string(),
        "9131".to_string(),
        "/proj".to_string(),
    )
}

fn client() -> ClientDaemon {
    ClientDaemon::new(
        "host".to_string(),
        "/proj".to_string(),
        "/home/u/.emacs_remote".to_string(),
        "9130".to_string(),
        "9131".to_string(),
        None,
    )
    .unwrap()
}

#[test]
fn shell_request_dispatch_yields_the_command_and_its_outcome() {
    // A shell request `{args: ["echo", "hi"]}` arrives on the loopback.
    let req = ShellRequest::new(
        &"/proj".to_string(),
        vec!["echo".to_string(), "hi".to_string()],
    );
    let payload = Payload::from_request(&req);
    let bytes = payload.as_bytes();

    // Dispatch decides the command to run, without running anything.
    match handle_stream_request(&bytes) {
        ConnOutcome::RunShell { project_dir, args } => {
            assert_eq!(project_dir, "/proj".to_string());
            assert_eq!(args, vec!["echo".to_string(), "hi".to_string()]);
            let cmd = ShellRequest::new(&project_dir, args).command_line();
            assert_eq!(cmd, "echo hi".to_string());
        },
        other => panic!("expected a shell action, got {:?}", other),
    }

    // The finished command's outcome becomes the response: status 0 and
    // stdout containing the echoed line.
    let resp = ShellResponse::from_output(0, b"hi\n".to_vec(), Vec::new());
    assert_eq!(resp.status, 0);
    assert_eq!(resp.stdout, b"hi\n".to_vec());
    assert_eq!(resp.run(), Ok(0));
}

#[test]
fn garbage_drops_the_connection_and_the_daemon_stays_available() {
    // A byte sequence that is no well-formed record: the connection is
    // dropped with no response.
    let garbage = vec![0x00, 0xfe, 0x42, 0x42];
    match handle_stream_request(&garbage) {
        ConnOutcome::Drop(e) => assert_eq!(e, ProtocolError::MalformedEnvelope),
        other => panic!("expected the connection to drop, got {:?}", other),
    }

    // The next connection is served as if nothing had happened.
    let payload = Payload::from_request(&MsgRequest::new());
    match handle_stream_request(&payload.as_bytes()) {
        ConnOutcome::Reply(out) => {
            let back = Payload::from_bytes(&out).unwrap();
            assert_eq!(back.get_type(), PayloadType::Msg);
        },
        other => panic!("expected a reply, got {:?}", other),
    }
}

#[test]
fn exit_request_shuts_the_daemon_down_cleanly() {
    let payload = Payload::from_request(&ExitRequest::new());
    match handle_stream_request(&payload.as_bytes()) {
        ConnOutcome::ReplyAndShutdown(out) => {
            let back = Payload::from_bytes(&out).unwrap();
            assert_eq!(back.get_type(), PayloadType::Exit);
            match back.to_response() {
                Ok(ResponseKind::Exit(r)) => assert_eq!(r.status, 0),
                other => panic!("expected an exit acknowledgement, got {:?}", other),
            }
        },
        other => panic!("expected a shutdown, got {:?}", other),
    }
}

#[test]
fn payload_to_request_matches_its_kind() {
    let p = Payload::from_request(&ExitRequest::new());
    match p.to_request() {
        Ok(RequestKind::Exit(_)) => {},
        other => panic!("expected an exit request, got {:?}", other),
    }

    let p = Payload::from_request(&MsgRequest::new());
    match p.to_request() {
        Ok(RequestKind::Msg(m)) => assert_eq!(m.contents, "Hiya!".to_string()),
        other => panic!("expected a greeting, got {:?}", other),
    }
}

#[test]
fn server_dispatches_an_index_request_and_replies() {
    let sd = server();
    let req = IndexRequest::new(7, "/proj".to_string());
    let action = sd.handle(&req.as_bytes()).unwrap();
    let (index_path, prev_hash) = match action {
        ServerAction::ComputeIndex { index_path, prev_hash } => (index_path, prev_hash),
        other => panic!("expected an index computation, got {:?}", other),
    };
    assert_eq!(index_path, "/proj".to_string());
    assert_eq!(prev_hash, 7);

    // The opaque index computation finishes; its outcome is packaged and
    // dispatched on the client side, which notes the fresh hash.
    let reply = sd.index_reply(99, "/srv/99.index".to_string());
    let mut cd = client();
    assert_eq!(cd.current_index_hash, 0);
    match cd.handle(&reply).unwrap() {
        ClientAction::SaveIndex { hash, path_to_index_file } => {
            assert_eq!(hash, 99);
            assert_eq!(path_to_index_file, "/srv/99.index".to_string());
        },
        other => panic!("expected an index response, got {:?}", other),
    }
    assert_eq!(cd.current_index_hash, 99);
}

#[test]
fn unknown_discriminants_are_refused_by_both_roles() {
    // A well-formed record whose discriminant maps to no message kind.
    let unknown = emacs_remote::envelope::encode_rec_tag(77);
    assert_eq!(
        server().handle(&unknown),
        Err(ProtocolError::UnsupportedMessageType)
    );
    let mut cd = client();
    assert_eq!(cd.handle(&unknown), Err(ProtocolError::UnsupportedMessageType));
    assert_eq!(cd.current_index_hash, 0);
}

#[test]
fn roles_refuse_messages_they_hold_no_handler_for() {
    // A response kind at the server, a request kind at the client.
    let resp = emacs_remote::envelope::encode_rec_u64(7, 0);
    assert_eq!(
        server().handle(&resp),
        Err(ProtocolError::UnsupportedMessageType)
    );
    let req = IndexRequest::new(1, "/p".to_string()).as_bytes();
    let mut cd = client();
    assert_eq!(cd.handle(&req), Err(ProtocolError::UnsupportedMessageType));
}

#[test]
fn server_answers_exit_and_init() {
    let sd = server();
    match sd.handle(&ExitRequest::new().as_bytes()).unwrap() {
        ServerAction::ReplyAndExit(out) => {
            assert_eq!(
                out,
                vec![0x92, 0xcf, 0, 0, 0, 0, 0, 0, 0, 7, 0xcf, 0, 0, 0, 0, 0, 0, 0, 0]
            );
        },
        other => panic!("expected an exit acknowledgement, got {:?}", other),
    }
    match sd
        .handle(&emacs_remote::requests::init_request::InitRequest::new().as_bytes())
        .unwrap()
    {
        ServerAction::Reply(_) => {},
        other => panic!("expected an init acknowledgement, got {:?}", other),
    }
}

#[test]
fn run_response_reports_the_daemon_outcome() {
    let ok = Payload::from_response(&ExitResponse::new(0));
    assert_eq!(run_response(&ok.as_bytes()), Ok(Ok(0)));

    let failed = Payload::from_response(&ExitResponse::new(9));
    assert_eq!(run_response(&failed.as_bytes()), Ok(Err(9)));

    let shell = Payload::from_response(&ShellResponse::from_output(0, b"hi\n".to_vec(), Vec::new()));
    assert_eq!(run_response(&shell.as_bytes()), Ok(Ok(0)));

    assert!(run_response(&vec![0x01, 0x02]).is_err());
}

#[test]
fn event_flag_sets_and_clears() {
    let mut finished = Event::new();
    assert!(!finished.is_set());
    finished.set();
    assert!(finished.is_set());
    let copy = finished.clone();
    assert!(copy.is_set());
    finished.clear();
    assert!(!finished.is_set());
}

#[test]
fn tool_config_decides_the_find_command() {
    let with_fd = ToolConfig::new(true, false);
    let args = find_command(&with_fd, &"Cargo".to_string(), &".".to_string()).unwrap();
    assert_eq!(
        args,
        vec![
            "fd".to_string(),
            "-t".to_string(),
            "f".to_string(),
            "Cargo".to_string(),
            ".".to_string()
        ]
    );

    let without = ToolConfig::new(false, true);
    assert!(find_command(&without, &"Cargo".to_string(), &".".to_string()).is_none());

    // The probe's exit status decides whether a tool counts as present.
    assert_eq!(which_outcome(0), Ok(()));
    assert_eq!(which_outcome(127), Err(127));
}

#[test]
fn auth_user_follows_the_host_configuration() {
    let local = auth_user(&"localhost".to_string(), &"me".to_string(), None).unwrap();
    assert_eq!(local, "me".to_string());

    assert_eq!(
        auth_user(&"remote".to_string(), &"me".to_string(), None),
        Err(SSHErrorCode::FileNotFound)
    );

    let disabled = SshHostConfig { pubkey_authentication: false, user: "u".to_string() };
    assert_eq!(
        auth_user(&"remote".to_string(), &"me".to_string(), Some(&disabled)),
        Err(SSHErrorCode::PubKeyAuthenticationDisabled)
    );

    let enabled = SshHostConfig { pubkey_authentication: true, user: "u".to_string() };
    assert_eq!(
        auth_user(&"remote".to_string(), &"me".to_string(), Some(&enabled)),
        Ok("u".to_string())
    );
}

#[test]
fn session_outcomes_surface_their_errors() {
    assert_eq!(agent_status(0), Ok(()));
    assert_eq!(agent_status(2), Err(SSHErrorCode::AgentError));
    assert_eq!(session_outcome(true), Ok(()));
    assert_eq!(session_outcome(false), Err(SSHErrorCode::AuthenticationFailed));
}
