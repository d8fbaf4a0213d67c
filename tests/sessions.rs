use demonsend::command::{split_words, unknown_command_message, Command};
use demonsend::device::{DeviceInfoV2, DeviceType};
use demonsend::error::ApiError;
use demonsend::files::FileMetadata;
use demonsend::session::{PrepareUploadRequest, SessionManager, SessionStatus, DEFAULT_SESSION_TTL};
use demonsend::text::base_name;

fn sender() -> DeviceInfoV2 {
    DeviceInfoV2 {
        alias: "p".to_string(),
        version: "2.1".to_string(),
        device_model: None,
        device_type: DeviceType::Mobile,
        fingerprint: "fp".to_string(),
        port: 53318,
        protocol: "http".to_string(),
        download: true,
        announce: false,
    }
}

fn file(id: &str, name: &str) -> FileMetadata {
    FileMetadata::new(id.to_string(), name.to_string(), 5, "text/plain".to_string(), None, None, None)
}

fn request(files: Vec<FileMetadata>) -> PrepareUploadRequest {
    PrepareUploadRequest { info: sender(), files }
}

fn manager() -> SessionManager {
    SessionManager::new(None, DEFAULT_SESSION_TTL, 100, 60)
}

fn status_of(m: &SessionManager, id: &str) -> Option<SessionStatus> {
    m.sessions().iter().find(|s| s.session_id == id).map(|s| s.status)
}

#[test]
fn upload_happy_path() {
    let mut m = manager();
    let resp = m
        .handle_prepare_upload_with(request(vec![file("f1", "note.txt")]), None, 0, "S".to_string(), vec!["T".to_string()])
        .unwrap();
    assert_eq!(resp.session_id, "S");
    assert_eq!(resp.files, vec![("f1".to_string(), "T".to_string())]);
    assert_eq!(status_of(&m, "S"), Some(SessionStatus::Preparing));
    let name = m.handle_upload("S", "f1", "T").unwrap();
    assert_eq!(name, "note.txt");
    assert_eq!(status_of(&m, "S"), Some(SessionStatus::Transferring));
    assert_eq!(m.complete_upload("S", "f1"), Ok(SessionStatus::Completed));
    assert_eq!(status_of(&m, "S"), Some(SessionStatus::Completed));
}

#[test]
fn bad_token_is_forbidden() {
    let mut m = manager();
    m.handle_prepare_upload_with(request(vec![file("f1", "note.txt")]), None, 0, "S".to_string(), vec!["T".to_string()])
        .unwrap();
    let e = m.handle_upload("S", "f1", "wrong").unwrap_err();
    assert_eq!(e, ApiError::InvalidToken);
    assert_eq!(e.status_code(), 403);
    assert_eq!(status_of(&m, "S"), Some(SessionStatus::Preparing));
}

#[test]
fn path_traversal_is_reduced_to_last_component() {
    let mut m = manager();
    m.handle_prepare_upload_with(
        request(vec![file("f1", "../../etc/passwd")]),
        None,
        0,
        "S".to_string(),
        vec!["T".to_string()],
    )
    .unwrap();
    assert_eq!(m.handle_upload("S", "f1", "T").unwrap(), "passwd");
}

#[test]
fn expired_session_is_gone() {
    let mut m = manager();
    m.handle_prepare_upload_with(request(vec![file("f1", "a.txt")]), None, 0, "S".to_string(), vec!["T".to_string()])
        .unwrap();
    m.reap(DEFAULT_SESSION_TTL);
    assert_eq!(m.sessions().len(), 1);
    m.reap(DEFAULT_SESSION_TTL + 1);
    let e = m.handle_upload("S", "f1", "T").unwrap_err();
    assert_eq!(e, ApiError::SessionNotFound);
    assert_eq!(e.status_code(), 403);
    assert!(m.sessions().is_empty());
}

#[test]
fn empty_file_list_is_invalid() {
    let mut m = manager();
    let r = m.handle_prepare_upload_with(request(vec![]), None, 0, "S".to_string(), vec![]);
    assert_eq!(r.unwrap_err(), ApiError::InvalidParameters);
    assert!(m.sessions().is_empty());
}

#[test]
fn unusable_names_and_duplicate_ids_are_invalid() {
    let mut m = manager();
    for name in ["..", "dir/", ".", ""] {
        let r = m.handle_prepare_upload_with(request(vec![file("f1", name)]), None, 0, "S".to_string(), vec!["T".to_string()]);
        assert_eq!(r.unwrap_err(), ApiError::InvalidParameters);
    }
    let r = m.handle_prepare_upload_with(
        request(vec![file("f1", "a"), file("f1", "b")]),
        None,
        0,
        "S".to_string(),
        vec!["T".to_string(), "U".to_string()],
    );
    assert_eq!(r.unwrap_err(), ApiError::InvalidParameters);
}

#[test]
fn cancel_twice_is_cancel_once() {
    let mut m = manager();
    m.handle_prepare_upload_with(request(vec![file("f1", "a")]), None, 0, "S".to_string(), vec!["T".to_string()])
        .unwrap();
    m.handle_prepare_upload_with(request(vec![file("f1", "b")]), None, 0, "R".to_string(), vec!["U".to_string()])
        .unwrap();
    m.handle_cancel("S");
    assert_eq!(m.sessions().len(), 1);
    m.handle_cancel("S");
    assert_eq!(m.sessions().len(), 1);
    assert_eq!(status_of(&m, "R"), Some(SessionStatus::Preparing));
    assert_eq!(m.handle_upload("S", "f1", "T").unwrap_err(), ApiError::SessionNotFound);
    m.handle_cancel("never");
    assert_eq!(m.sessions().len(), 1);
}

#[test]
fn uploads_in_any_order_complete_once() {
    let mut m = manager();
    let files = vec![file("a", "a.txt"), file("b", "b.txt"), file("c", "c.txt")];
    m.handle_prepare_upload_with(
        request(files),
        None,
        0,
        "S".to_string(),
        vec!["ta".to_string(), "tb".to_string(), "tc".to_string()],
    )
    .unwrap();
    let order = [("c", "tc"), ("a", "ta"), ("b", "tb")];
    for (k, (id, token)) in order.iter().enumerate() {
        m.handle_upload("S", id, token).unwrap();
        let st = m.complete_upload("S", id).unwrap();
        if k + 1 == order.len() {
            assert_eq!(st, SessionStatus::Completed);
        } else {
            assert_eq!(st, SessionStatus::Transferring);
        }
    }
    // a completed session takes no more uploads
    assert_eq!(m.handle_upload("S", "a", "ta").unwrap_err(), ApiError::SessionNotFound);
}

#[test]
fn same_file_twice_is_marked_once() {
    let mut m = manager();
    m.handle_prepare_upload_with(
        request(vec![file("a", "a"), file("b", "b")]),
        None,
        0,
        "S".to_string(),
        vec!["ta".to_string(), "tb".to_string()],
    )
    .unwrap();
    assert!(m.handle_upload("S", "a", "ta").is_ok());
    assert!(m.handle_upload("S", "a", "ta").is_ok());
    assert_eq!(m.complete_upload("S", "a"), Ok(SessionStatus::Transferring));
    assert_eq!(m.complete_upload("S", "a"), Ok(SessionStatus::Transferring));
    let s = m.sessions().iter().find(|s| s.session_id == "S").unwrap();
    assert_eq!(s.files.iter().filter(|f| f.received).count(), 1);
}

#[test]
fn upload_errors_in_order() {
    let mut m = manager();
    m.handle_prepare_upload_with(request(vec![file("f1", "a")]), None, 0, "S".to_string(), vec!["T".to_string()])
        .unwrap();
    assert_eq!(m.handle_upload("X", "f1", "T").unwrap_err(), ApiError::SessionNotFound);
    assert_eq!(m.handle_upload("S", "f9", "wrong").unwrap_err(), ApiError::InvalidParameters);
    assert_eq!(m.handle_upload("S", "f1", "wrong").unwrap_err(), ApiError::InvalidToken);
    assert_eq!(m.complete_upload("X", "f1").unwrap_err(), ApiError::SessionNotFound);
    assert_eq!(m.complete_upload("S", "f9").unwrap_err(), ApiError::InvalidParameters);
}

#[test]
fn download_gives_name_and_type() {
    let mut m = manager();
    m.handle_prepare_upload_with(request(vec![file("f1", "x/y/pic.png")]), None, 0, "S".to_string(), vec!["T".to_string()])
        .unwrap();
    let t = m.handle_download("S", "f1", "T").unwrap();
    assert_eq!(t.file_name, "pic.png");
    assert_eq!(t.file_type, "text/plain");
    assert_eq!(m.handle_download("S", "f1", "bad").unwrap_err(), ApiError::InvalidToken);
}

#[test]
fn pin_must_match() {
    let mut m = SessionManager::new(Some("1234".to_string()), DEFAULT_SESSION_TTL, 100, 60);
    let r = m.handle_prepare_upload_with(request(vec![file("f1", "a")]), None, 0, "S".to_string(), vec!["T".to_string()]);
    assert_eq!(r.unwrap_err(), ApiError::InvalidPin);
    let r = m.handle_prepare_upload_with(
        request(vec![file("f1", "a")]),
        Some("9999".to_string()),
        0,
        "S".to_string(),
        vec!["T".to_string()],
    );
    assert_eq!(r.unwrap_err(), ApiError::InvalidPin);
    let r = m.handle_prepare_upload_with(
        request(vec![file("f1", "a")]),
        Some("1234".to_string()),
        0,
        "S".to_string(),
        vec!["T".to_string()],
    );
    assert!(r.is_ok());
}

#[test]
fn rate_limit_per_sender() {
    let mut m = SessionManager::new(None, DEFAULT_SESSION_TTL, 2, 60);
    for (k, id) in ["A", "B"].iter().enumerate() {
        let r = m.handle_prepare_upload_with(request(vec![file("f", "a")]), None, k as u64, id.to_string(), vec!["T".to_string()]);
        assert!(r.is_ok());
    }
    let r = m.handle_prepare_upload_with(request(vec![file("f", "a")]), None, 10, "C".to_string(), vec!["T".to_string()]);
    assert_eq!(r.unwrap_err(), ApiError::TooManyRequests);
    assert_eq!(ApiError::TooManyRequests.status_code(), 429);
    m.reap(61);
    let r = m.handle_prepare_upload_with(request(vec![file("f", "a")]), None, 61, "C".to_string(), vec!["T".to_string()]);
    assert!(r.is_ok());
}

#[test]
fn session_id_in_use_is_refused() {
    let mut m = manager();
    m.handle_prepare_upload_with(request(vec![file("f", "a")]), None, 0, "S".to_string(), vec!["T".to_string()])
        .unwrap();
    let r = m.handle_prepare_upload_with(request(vec![file("f", "b")]), None, 0, "S".to_string(), vec!["U".to_string()]);
    assert_eq!(r.unwrap_err(), ApiError::Unknown);
    assert_eq!(m.sessions().len(), 1);
}

#[test]
fn drawn_ids_and_tokens() {
    let mut m = manager();
    let resp = m.handle_prepare_upload(request(vec![file("a", "a"), file("b", "b")]), None, 0).unwrap();
    assert_eq!(resp.session_id.len(), 36);
    assert_eq!(resp.files.len(), 2);
    assert_eq!(resp.files[0].0, "a");
    assert_eq!(resp.files[1].0, "b");
    assert_ne!(resp.files[0].1, resp.files[1].1);
    let name = m.handle_upload(&resp.session_id, "b", &resp.files[1].1).unwrap();
    assert_eq!(name, "b");
    let e = m.handle_prepare_upload(request(vec![]), None, 0).unwrap_err();
    assert_eq!(e, ApiError::InvalidParameters);
}

#[test]
fn basename_of_names() {
    assert_eq!(base_name("../../etc/passwd"), "passwd");
    assert_eq!(base_name("a\\b\\c.txt"), "c.txt");
    assert_eq!(base_name("plain"), "plain");
    assert_eq!(base_name("dir/"), "");
}

#[test]
fn describe_file() {
    let m = FileMetadata::describe("id1".to_string(), "/home/u/notes.tar.gz", 5, &b"hello".to_vec()).unwrap();
    assert_eq!(m.id, "id1");
    assert_eq!(m.file_name, "notes.tar.gz");
    assert_eq!(m.file_type, "gz");
    assert_eq!(m.size, 5);
    assert_eq!(m.sha256, Some("2cf24dba5fb0a30e26e83b2ac5b9e29e1b161e5c1fa7425e73043362938b9824".to_string()));
    let hidden = FileMetadata::describe("id2".to_string(), ".bashrc", 0, &Vec::new()).unwrap();
    assert_eq!(hidden.file_type, "");
    let e = FileMetadata::describe("id3".to_string(), "/tmp/dir/", 0, &Vec::new()).unwrap_err();
    assert_eq!(e, ApiError::NotAFile);
    let drawn = FileMetadata::from_contents("x.txt", 1, &b"x".to_vec()).unwrap();
    assert_eq!(drawn.id.len(), 36);
}

#[test]
fn parse_commands() {
    assert!(matches!(Command::parse("version"), Command::Version));
    assert!(matches!(Command::parse("VERSION"), Command::Version));
    assert!(matches!(Command::parse("Peers"), Command::Peers));
    assert!(matches!(Command::parse("sessions"), Command::Sessions));
    assert!(matches!(Command::parse("info"), Command::Info));
    assert!(matches!(Command::parse("refresh"), Command::Refresh));
    match Command::parse("send fb  /tmp/a b.txt") {
        Command::Send(peer, path) => {
            assert_eq!(peer, "fb");
            assert_eq!(path, "/tmp/a");
        }
        other => panic!("unexpected {:?}", other),
    }
    match Command::parse("send fb") {
        Command::Unknown(s) => assert_eq!(s, "send fb"),
        other => panic!("unexpected {:?}", other),
    }
    match Command::parse("bogus") {
        Command::Unknown(s) => assert_eq!(s, "bogus"),
        other => panic!("unexpected {:?}", other),
    }
    assert_eq!(unknown_command_message("bogus"), "Unknown command: bogus");
}

#[test]
fn split_into_words() {
    assert_eq!(split_words("  a bb\tccc  "), vec!["a".to_string(), "bb".to_string(), "ccc".to_string()]);
    assert!(split_words("   ").is_empty());
}

#[test]
fn empty_file_list_is_invalid_before_pin() {
    let mut m = SessionManager::new(Some("1234".to_string()), DEFAULT_SESSION_TTL, 100, 60);
    let r = m.handle_prepare_upload(request(vec![]), None, 0);
    assert_eq!(r.unwrap_err(), ApiError::InvalidParameters);
    assert!(m.sessions().is_empty());
}

#[test]
fn fresh_manager_accepts_valid_prepare() {
    let mut m = manager();
    let resp = m.handle_prepare_upload(request(vec![file("f1", "note.txt")]), None, 0).unwrap();
    assert_eq!(resp.files.len(), 1);
    assert_eq!(resp.files[0].0, "f1");
    assert_eq!(status_of(&m, &resp.session_id), Some(SessionStatus::Preparing));
}

#[test]
fn split_on_unicode_whitespace() {
    assert_eq!(
        split_words("send\u{a0}fb\u{3000}/tmp/x\u{2009}y"),
        vec!["send".to_string(), "fb".to_string(), "/tmp/x".to_string(), "y".to_string()]
    );
    match Command::parse("send fb\u{2028}/tmp/z") {
        Command::Send(peer, path) => {
            assert_eq!(peer, "fb");
            assert_eq!(path, "/tmp/z");
        }
        other => panic!("unexpected {:?}", other),
    }
}
