//! Workspace identity: stable hashing, path resolution, the daemon record
//! file, and daemon address parsing.

use emacs_remote::structs::client::ClientDaemon;
use emacs_remote::utils::workspace::file_name;
use emacs_remote::utils::workspace::fnv1a;
use emacs_remote::utils::workspace::parse_addr;
use emacs_remote::utils::workspace::DaemonRecord;
use emacs_remote::utils::workspace::Workspace;

#[test]
fn test_workspace_new() {
    let project_name = "project_name".to_string();
    let workspace = Workspace::new(&project_name).expect("a home directory is expected here");

    assert_eq!(workspace.project_dir(), &project_name);
}

#[test]
fn test_workspace_hashes_same() {
    let project_name = "project_name".to_string();

    let workspace1 = Workspace::new(&project_name).expect("a home directory is expected here");
    let workspace2 = Workspace::new(&project_name).expect("a home directory is expected here");

    assert_eq!(workspace1.project_dir(), &project_name);
    assert_eq!(workspace2.project_dir(), &project_name);

    assert_eq!(workspace1.hash(), workspace2.hash());
}

#[test]
fn identity_hash_is_stable_across_instances() {
    let p = "/home/someone/projects/editor".to_string();
    let w1 = Workspace::with_root(&p, &"/rootdir".to_string());
    let w2 = Workspace::with_root(&p, &"/otherroot".to_string());
    // The identity hash depends on the project path alone.
    assert_eq!(w1.hash(), w2.hash());

    let other = "/home/someone/projects/other".to_string();
    let w3 = Workspace::with_root(&other, &"/rootdir".to_string());
    assert_ne!(w1.hash(), w3.hash());
}

#[test]
fn fnv1a_known_value() {
    // The well-known FNV-1a 64-bit value of the single byte "a".
    assert_eq!(fnv1a("a".as_bytes()), 0xaf63dc4c8601ec8c);
    // And of the empty input: the offset basis itself.
    assert_eq!(fnv1a(&[]), 0xcbf29ce484222325);
}

#[test]
fn registry_path_layout() {
    let w = Workspace::with_root(&"/x/proj".to_string(), &"/home/u".to_string());
    assert_eq!(w.path(), &"/home/u/.emacs-remote-server/workspaces/proj".to_string());
    // The address file carries the project name and the identity hash;
    // the decimal rendering agrees with the standard formatter.
    let expected = format!("{}/proj-{}.workspace", w.path(), w.hash());
    assert_eq!(w.daemon_addr_file(), expected);
}

#[test]
fn file_name_takes_last_component() {
    assert_eq!(file_name(&"a/b/c".to_string()), "c".to_string());
    assert_eq!(file_name(&"plain".to_string()), "plain".to_string());
    assert_eq!(file_name(&"".to_string()), "".to_string());
    assert_eq!(file_name(&"trailing/".to_string()), "".to_string());
}

#[test]
fn daemon_record_round_trip() {
    let rec = DaemonRecord::new("myhost".to_string(), "/proj".to_string(), 9130, 9131, 42);
    let bytes = rec.to_bytes();
    let back = DaemonRecord::from_bytes(&bytes).expect("published record must be found");
    assert_eq!(back.host, "myhost".to_string());
    assert_eq!(back.workspace_path, "/proj".to_string());
    assert_eq!(back.local_port, 9130);
    assert_eq!(back.remote_port, 9131);
    assert_eq!(back.last_index_hash, 42);
}

#[test]
fn publish_then_find_then_retract() {
    // The address file of one workspace identity, modeled as its contents.
    let mut slot: Option<Vec<u8>> = None;

    // publish: write the record's bytes.
    let rec = DaemonRecord::new("host".to_string(), "/proj".to_string(), 4000, 4001, 7);
    slot = Some(rec.to_bytes());

    // find: read them back; the published address is observed.
    let found = DaemonRecord::from_bytes(slot.as_ref().unwrap()).unwrap();
    assert_eq!(found.local_port, 4000);
    assert_eq!(found.remote_port, 4001);

    // retract: remove the file; find now reports no daemon.
    slot = None;
    assert!(slot.is_none());
}

#[test]
fn malformed_record_is_treated_as_absent() {
    let garbage = vec![0x00, 0x01, 0x02, 0xff];
    assert!(DaemonRecord::from_bytes(&garbage).is_none());
    let empty: Vec<u8> = Vec::new();
    assert!(DaemonRecord::from_bytes(&empty).is_none());
}

#[test]
fn client_daemon_resolves_with_and_without_record() {
    // No record: a fresh daemon with no index state.
    let fresh = ClientDaemon::new(
        "host".to_string(),
        "/proj".to_string(),
        "/home/u/.emacs_remote".to_string(),
        "9130".to_string(),
        "9131".to_string(),
        None,
    )
    .unwrap();
    assert_eq!(fresh.current_index_hash, 0);

    // A record for the same host and workspace carries its hash over.
    let rec = DaemonRecord::new("host".to_string(), "/proj".to_string(), 9130, 9131, 55);
    let resumed = ClientDaemon::new(
        "host".to_string(),
        "/proj".to_string(),
        "/home/u/.emacs_remote".to_string(),
        "9130".to_string(),
        "9131".to_string(),
        Some(&rec),
    )
    .unwrap();
    assert_eq!(resumed.current_index_hash, 55);

    // A record for another workspace is refused.
    let foreign = DaemonRecord::new("host".to_string(), "/other".to_string(), 9130, 9131, 55);
    assert!(ClientDaemon::new(
        "host".to_string(),
        "/proj".to_string(),
        "/home/u/.emacs_remote".to_string(),
        "9130".to_string(),
        "9131".to_string(),
        Some(&foreign),
    )
    .is_err());
}

#[test]
fn second_resolution_observes_published_address() {
    // A client daemon starts with no record for "/proj", picks its ports,
    // and publishes its address.
    let daemon = ClientDaemon::new(
        "host".to_string(),
        "/proj".to_string(),
        "/home/u/.emacs_remote".to_string(),
        "9130".to_string(),
        "9131".to_string(),
        None,
    )
    .unwrap();
    assert_eq!(daemon.current_index_hash, 0);
    let published = DaemonRecord::new("host".to_string(), "/proj".to_string(), 9130, 9131, 0);
    let file = published.to_bytes();

    // Another resolution of "/proj" reads the file and observes the address.
    let observed = DaemonRecord::from_bytes(&file).unwrap();
    assert_eq!(observed.host, "host".to_string());
    assert_eq!(observed.workspace_path, "/proj".to_string());
    assert_eq!(observed.local_port, 9130);
    assert_eq!(observed.remote_port, 9131);
}

#[test]
fn parse_addr_accepts_host_and_port() {
    let r = parse_addr(&"127.0.0.1:9130".to_string()).unwrap();
    assert_eq!(r.0, "127.0.0.1".to_string());
    assert_eq!(r.1, 9130);

    let r = parse_addr(&"::1:65535".to_string()).unwrap();
    assert_eq!(r.0, "::1".to_string());
    assert_eq!(r.1, 65535);
}

#[test]
fn parse_addr_rejects_malformed_addresses() {
    assert!(parse_addr(&"nocolon".to_string()).is_none());
    assert!(parse_addr(&"host:".to_string()).is_none());
    assert!(parse_addr(&"host:12x4".to_string()).is_none());
    assert!(parse_addr(&"host:70000".to_string()).is_none());
    assert!(parse_addr(&"".to_string()).is_none());
}
