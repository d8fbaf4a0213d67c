use demonsend::device::{DeviceInfo, DeviceInfoV1, DeviceInfoV2, DeviceType, InfoQuery, MULTICAST_PORT};
use demonsend::discovery::{is_whole_datagram, Announcement, Discovery, Reply, RECEIVE_BUFFER_LEN};
use demonsend::error::ApiError;
use demonsend::peers::PeerAddress;

fn record(fingerprint: &str, port: u16, announce: bool) -> DeviceInfoV2 {
    DeviceInfoV2 {
        alias: format!("peer-{}", fingerprint),
        version: "2.1".to_string(),
        device_model: None,
        device_type: DeviceType::Headless,
        fingerprint: fingerprint.to_string(),
        port,
        protocol: "http".to_string(),
        download: true,
        announce,
    }
}

const IP_A: u32 = 0xC0A8_0001;
const IP_B: u32 = 0xC0A8_0002;

#[test]
fn self_echo_is_ignored() {
    let mut a = Discovery::new(record("fa", 53317, true));
    let reply = a.handle_announcement(Announcement::V2(record("fa", 53317, true)), IP_A, 1);
    assert!(reply.is_none());
    assert!(a.peer_list().is_empty());
}

#[test]
fn two_peer_discovery() {
    let mut a = Discovery::new(record("fa", 53317, true));
    let mut b = Discovery::new(record("fb", 53318, true));

    let hello = b.announcement();
    assert!(hello.announce);
    let reply = a.handle_announcement(Announcement::V2(hello), IP_B, 10).expect("a reply");
    let (answer, target) = match reply {
        Reply::V2 { record, register_at } => (record, register_at),
        Reply::V1 { .. } => panic!("a v2 announcement gets a v2 reply"),
    };
    assert!(!answer.announce);
    assert_eq!(answer.fingerprint, "fa");
    assert_eq!(target, PeerAddress { ip: IP_B, port: 53318 });

    // the reply on the multicast group asks nothing back
    assert!(b.handle_announcement(Announcement::V2(answer.clone()), IP_A, 11).is_none());
    // the HTTP registration at B's address
    let back = b.handle_v2_register(answer, IP_A, 11);
    assert_eq!(back.fingerprint, "fb");

    let a_peers = a.peer_list();
    assert_eq!(a_peers.len(), 1);
    assert_eq!(a_peers[0].device.fingerprint, "fb");
    assert_eq!(a_peers[0].address, PeerAddress { ip: IP_B, port: 53318 });
    let b_peers = b.peer_list();
    assert_eq!(b_peers.len(), 1);
    assert_eq!(b_peers[0].device.fingerprint, "fa");
    assert_eq!(b_peers[0].address, PeerAddress { ip: IP_A, port: 53317 });
}

#[test]
fn v1_announcement_is_upgraded() {
    let mut a = Discovery::new(record("fa", 53317, true));
    let v1 = DeviceInfoV1 {
        alias: "phone".to_string(),
        device_model: None,
        device_type: "mobile".to_string(),
        fingerprint: "fp".to_string(),
        announcement: true,
    };
    let reply = a.handle_announcement(Announcement::V1(v1), IP_B, 5);
    let peers = a.peer_list();
    assert_eq!(peers.len(), 1);
    let d = &peers[0].device;
    assert_eq!(d.fingerprint, "fp");
    assert_eq!(d.alias, "phone");
    assert_eq!(d.version, "1.0");
    assert_eq!(d.port, 53317);
    assert_eq!(d.protocol, "http");
    assert!(d.download);
    assert!(d.announce);
    assert_eq!(d.device_type, DeviceType::Mobile);
    assert_eq!(peers[0].address, PeerAddress { ip: IP_B, port: MULTICAST_PORT });
    match reply {
        Some(Reply::V1 { record }) => {
            assert_eq!(record.fingerprint, "fa");
            assert!(!record.announcement);
            assert_eq!(record.device_type, "headless");
        }
        _ => panic!("a v1 announcement gets a v1 reply"),
    }
}

#[test]
fn announcement_without_request_gets_no_reply() {
    let mut a = Discovery::new(record("fa", 53317, true));
    let reply = a.handle_announcement(Announcement::V2(record("fb", 53318, false)), IP_B, 3);
    assert!(reply.is_none());
    assert_eq!(a.peer_list().len(), 1);
}

#[test]
fn latest_record_wins() {
    let mut a = Discovery::new(record("fa", 53317, true));
    a.handle_announcement(Announcement::V2(record("fb", 53318, false)), IP_B, 3);
    let mut newer = record("fb", 53400, false);
    newer.alias = "renamed".to_string();
    a.handle_announcement(Announcement::V2(newer), IP_A, 9);
    let peers = a.peer_list();
    assert_eq!(peers.len(), 1);
    assert_eq!(peers[0].device.alias, "renamed");
    assert_eq!(peers[0].address, PeerAddress { ip: IP_A, port: 53400 });
    assert_eq!(peers[0].last_seen, 9);
}

#[test]
fn register_under_own_fingerprint_is_ignored() {
    let mut a = Discovery::new(record("fa", 53317, true));
    let back = a.handle_v2_register(record("fa", 1, false), IP_B, 1);
    assert_eq!(back.fingerprint, "fa");
    assert!(a.peer_list().is_empty());
    let v1 = DeviceInfoV1 {
        alias: "x".to_string(),
        device_model: None,
        device_type: "web".to_string(),
        fingerprint: "fa".to_string(),
        announcement: false,
    };
    let back = a.handle_v1_register(v1, IP_B, 1);
    assert_eq!(back.fingerprint, "fa");
    assert!(a.peer_list().is_empty());
}

#[test]
fn v1_register_stores_caller() {
    let mut a = Discovery::new(record("fa", 53317, true));
    let v1 = DeviceInfoV1 {
        alias: "old".to_string(),
        device_model: Some("m".to_string()),
        device_type: "toaster".to_string(),
        fingerprint: "fo".to_string(),
        announcement: false,
    };
    let back = a.handle_v1_register(v1, IP_B, 2);
    assert_eq!(back.alias, "peer-fa");
    assert_eq!(back.device_type, "headless");
    let peers = a.peer_list();
    assert_eq!(peers.len(), 1);
    assert_eq!(peers[0].device.device_type, DeviceType::Unknown);
    assert_eq!(peers[0].device.device_model, Some("m".to_string()));
}

#[test]
fn info_answers_empty_record_to_self() {
    let a = Discovery::new(record("fa", 53317, true));
    let own = a.handle_v2_info(&InfoQuery { fingerprint: "fa".to_string() });
    assert_eq!(own.fingerprint, "");
    assert_eq!(own.alias, "");
    assert_eq!(own.port, 0);
    let other = a.handle_v2_info(&InfoQuery { fingerprint: "fz".to_string() });
    assert_eq!(other.fingerprint, "fa");
    let v1 = a.handle_v1_info(&InfoQuery { fingerprint: "fz".to_string() });
    assert_eq!(v1.alias, "peer-fa");
    assert_eq!(v1.device_type, "headless");
    let v1_self = a.handle_v1_info(&InfoQuery { fingerprint: "fa".to_string() });
    assert_eq!(v1_self.alias, "");
    assert_eq!(v1_self.device_type, "");
}

#[test]
fn refresh_clears_peers() {
    let mut a = Discovery::new(record("fa", 53317, true));
    a.handle_announcement(Announcement::V2(record("fb", 53318, false)), IP_B, 3);
    a.handle_announcement(Announcement::V2(record("fc", 53319, false)), IP_B, 3);
    assert_eq!(a.peer_list().len(), 2);
    a.refresh();
    assert!(a.peer_list().is_empty());
}

#[test]
fn send_target_of_unknown_peer_is_not_found() {
    let mut a = Discovery::new(record("fa", 53317, true));
    assert_eq!(a.send_target("fb"), Err(ApiError::NotFound));
    a.handle_announcement(Announcement::V2(record("fb", 53318, false)), IP_B, 3);
    assert_eq!(a.send_target("fb"), Ok(PeerAddress { ip: IP_B, port: 53318 }));
}

#[test]
fn oversized_datagram_is_dropped() {
    assert!(is_whole_datagram(0));
    assert!(is_whole_datagram(1200));
    assert!(is_whole_datagram(RECEIVE_BUFFER_LEN - 1));
    assert!(!is_whole_datagram(RECEIVE_BUFFER_LEN));
}

#[test]
fn wire_round_trip() {
    for announce in [true, false] {
        let mut r = record("fw", 4000, announce);
        r.device_model = Some("laptop".to_string());
        r.device_type = DeviceType::Server;
        let wire = r.clone().to_wire();
        assert_eq!(wire.device_type, Some("server".to_string()));
        assert_eq!(wire.announce, if announce { Some(true) } else { None });
        let back = DeviceInfoV2::from_wire(wire);
        assert_eq!(back.alias, r.alias);
        assert_eq!(back.device_model, r.device_model);
        assert_eq!(back.device_type, r.device_type);
        assert_eq!(back.port, r.port);
        assert_eq!(back.announce, r.announce);
    }
}

#[test]
fn wire_absent_announce_reads_false() {
    let w = DeviceInfo {
        alias: "a".to_string(),
        version: "2.1".to_string(),
        device_model: None,
        device_type: None,
        fingerprint: "f".to_string(),
        port: 1,
        protocol: "http".to_string(),
        download: false,
        announce: None,
    };
    let mut w2 = w.clone();
    w2.announce = Some(false);
    let a = DeviceInfoV2::from_wire(w);
    let b = DeviceInfoV2::from_wire(w2);
    assert!(!a.announce);
    assert!(!b.announce);
    assert_eq!(a.device_type, DeviceType::Unknown);
}

#[test]
fn device_type_tokens() {
    let all = [
        DeviceType::Mobile,
        DeviceType::Desktop,
        DeviceType::Web,
        DeviceType::Headless,
        DeviceType::Server,
        DeviceType::Unknown,
    ];
    for t in all {
        assert_eq!(DeviceType::from_token(t.token()), t);
    }
    assert_eq!(DeviceType::from_token("desktop"), DeviceType::Desktop);
    assert_eq!(DeviceType::from_token("Desktop"), DeviceType::Unknown);
    assert_eq!(DeviceType::from_token("fridge"), DeviceType::Unknown);
}

#[test]
fn to_v1_keeps_identity() {
    let r = record("f1", 9, true);
    let v1 = r.to_v1();
    assert_eq!(v1.alias, r.alias);
    assert_eq!(v1.fingerprint, "f1");
    assert_eq!(v1.device_type, "headless");
    assert!(v1.announcement);
}

#[test]
fn default_device_info() {
    let d = DeviceInfo::default();
    assert_eq!(d.alias, "localsend-rs");
    assert_eq!(d.version, "2.1");
    assert_eq!(d.device_type, Some("headless".to_string()));
    assert_eq!(d.port, 53317);
    assert_eq!(d.announce, Some(true));
    assert_eq!(d.fingerprint.len(), 36);
    let e = DeviceInfo::default();
    assert_ne!(d.fingerprint, e.fingerprint);
}

#[test]
fn self_record_from_config() {
    let c = demonsend::device::Config::default_in("/tmp/in".to_string());
    assert_eq!(c.alias, "demonsend");
    let me = DeviceInfoV2::from_config_with(&c, "me".to_string());
    assert_eq!(me.fingerprint, "me");
    assert_eq!(me.version, "2.1");
    assert_eq!(me.port, 53317);
    assert_eq!(me.device_type, DeviceType::Headless);
    assert!(me.announce);
    let drawn = DeviceInfoV2::from_config(&c);
    assert_eq!(drawn.fingerprint.len(), 36);
}

#[test]
fn error_status_codes() {
    assert_eq!(ApiError::InvalidParameters.status_code(), 400);
    assert_eq!(ApiError::InvalidToken.status_code(), 403);
    assert_eq!(ApiError::SessionNotFound.status_code(), 403);
    assert_eq!(ApiError::NotFound.status_code(), 404);
    assert_eq!(ApiError::TooManyRequests.status_code(), 429);
    assert_eq!(ApiError::Io.status_code(), 500);
    assert_eq!(ApiError::SessionNotFound.message(), "Session not found");
}
