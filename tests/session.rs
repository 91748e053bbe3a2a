use rustbee::api::{self, decode, AtCommandResponse, FrameId, InboundFrame, NullRecieve};
use rustbee::device::{
    discovered_peers, discovery_step, discovery_timeout_ms, peer_from_reply, AtCommands, DeviceIdentity, Error,
    IdentityStep, LineReply, DISCOVERY_TIMEOUT_MS,
};

/// Raw bytes of an AT command response for `cmd` carrying `data`.
fn at_reply_bytes(cmd: &[u8; 2], data: &[u8]) -> Vec<u8> {
    let mut v = vec![0x7e, 0x00, (4 + data.len()) as u8, 0x88, 0x01, cmd[0], cmd[1], 0x00];
    v.extend_from_slice(data);
    let sum: u32 = v[3..].iter().map(|b| *b as u32).sum();
    v.push(0xff - (sum % 256) as u8);
    v
}

fn at_reply(cmd: &[u8; 2], data: &[u8]) -> InboundFrame {
    decode(&at_reply_bytes(cmd, data), FrameId::AtCommandResponse).unwrap()
}

#[test]
fn firmware_version_is_queried_once() {
    let mut id = DeviceIdentity::new();
    let queries = match id.firmware_version_step() {
        IdentityStep::Query(q) => q,
        IdentityStep::Ready(_) => panic!("nothing is cached yet"),
    };
    assert_eq!(queries, vec!["VR"]);
    let v = id.record_firmware_version(&at_reply(b"VR", &[0x30, 0x0a])).unwrap();
    assert_eq!(v, 0x300a);
    match id.firmware_version_step() {
        IdentityStep::Ready(v) => assert_eq!(v, 0x300a),
        IdentityStep::Query(_) => panic!("the version is cached"),
    }
    assert_eq!(id.firmware_version, Some(0x300a));
}

#[test]
fn hardware_version_is_cached() {
    let mut id = DeviceIdentity::new();
    assert!(matches!(id.hardware_version_step(), IdentityStep::Query(q) if q == vec!["HV"]));
    assert_eq!(id.record_hardware_version(&at_reply(b"HV", &[0x22, 0x41])).unwrap(), 0x2241);
    assert!(matches!(id.hardware_version_step(), IdentityStep::Ready(0x2241)));
}

#[test]
fn version_of_wrong_width_fails() {
    let mut id = DeviceIdentity::new();
    assert!(matches!(id.record_firmware_version(&at_reply(b"VR", &[1, 2, 3])), Err(Error::DecodeError(_))));
    assert!(matches!(id.record_firmware_version(&at_reply(b"VR", &[])), Err(Error::DecodeError(_))));
    assert_eq!(id.firmware_version, None);
}

#[test]
fn reply_of_other_kind_fails() {
    let mut id = DeviceIdentity::new();
    let r = id.record_hardware_version(&InboundFrame::Null(NullRecieve));
    assert!(matches!(r, Err(Error::ApiError(api::Error::DerefError))));
}

#[test]
fn node_id_is_decoded_and_cached() {
    let mut id = DeviceIdentity::new();
    assert!(matches!(id.node_id_step(), IdentityStep::Query(q) if q == vec!["NI"]));
    assert_eq!(id.record_node_id(&at_reply(b"NI", b"MY_NODE")).unwrap(), "MY_NODE");
    assert!(matches!(id.node_id_step(), IdentityStep::Ready(n) if n == "MY_NODE"));
}

#[test]
fn node_id_not_utf8_fails() {
    let mut id = DeviceIdentity::new();
    assert!(matches!(id.record_node_id(&at_reply(b"NI", &[0xff, 0xfe])), Err(Error::DecodeError(_))));
    assert!(id.node_id.is_none());
}

#[test]
fn address_from_two_halves() {
    let mut id = DeviceIdentity::new();
    assert!(matches!(id.addr_64bit_step(), IdentityStep::Query(q) if q == vec!["SH", "SL"]));
    let high = at_reply(b"SH", &[0x00, 0x13, 0xa2, 0x00]);
    let low = at_reply(b"SL", &[0x40, 0xa1, 0xb2, 0xc3]);
    assert_eq!(id.record_addr_64bit(&high, &low).unwrap(), 0x0013_a200_40a1_b2c3);
    assert!(matches!(id.addr_64bit_step(), IdentityStep::Ready(0x0013_a200_40a1_b2c3)));
    let mut other = DeviceIdentity::new();
    assert!(matches!(other.record_addr_64bit(&high, &at_reply(b"SL", &[1, 2])), Err(Error::DecodeError(_))));
    assert_eq!(other.addr_64bit, None);
}

fn discovery_reply(addr: u64, name: &[u8]) -> AtCommandResponse {
    let mut data = vec![0xff, 0xfe];
    data.extend_from_slice(&addr.to_be_bytes());
    data.extend_from_slice(name);
    data.push(0);
    data.extend_from_slice(&[0xff, 0xfe, 0x01, 0x00]);
    AtCommandResponse::recieve(&at_reply_bytes(b"ND", &data)).unwrap()
}

#[test]
fn discovery_without_replies_fails() {
    assert!(matches!(discovered_peers(&Vec::new()), Err(Error::DiscoveryError)));
    let mut id = DeviceIdentity::new();
    assert!(matches!(id.record_discovery(&Vec::new()), Err(Error::DiscoveryError)));
    assert!(id.nodes.is_none());
}

#[test]
fn discovery_with_two_replies() {
    let replies = vec![discovery_reply(0x0013_a200_4000_0001, b"ALPHA"), discovery_reply(0x0013_a200_4000_0002, b"B")];
    let peers = discovered_peers(&replies).unwrap();
    assert_eq!(peers.len(), 2);
    assert_eq!(peers[0].addr_64bit, 0x0013_a200_4000_0001);
    assert_eq!(peers[0].node_id, "ALPHA");
    assert_eq!(peers[1].addr_64bit, 0x0013_a200_4000_0002);
    assert_eq!(peers[1].node_id, "B");
    let mut id = DeviceIdentity::new();
    id.record_discovery(&replies).unwrap();
    assert_eq!(id.nodes.as_ref().unwrap().len(), 2);
    id.record_discovery(&vec![discovery_reply(7, b"C")]).unwrap();
    let nodes = id.nodes.as_ref().unwrap();
    assert_eq!(nodes.len(), 1);
    assert_eq!(nodes[0].addr_64bit, 7);
}

#[test]
fn discovery_name_runs_to_end_without_zero() {
    let mut data = vec![0, 0, 0, 0, 0, 0, 0, 0, 0, 5];
    data.extend_from_slice(b"END");
    let reply = AtCommandResponse::recieve(&at_reply_bytes(b"ND", &data)).unwrap();
    let p = peer_from_reply(&reply).unwrap();
    assert_eq!(p.addr_64bit, 5);
    assert_eq!(p.node_id, "END");
}

#[test]
fn discovery_reply_too_short() {
    let reply = AtCommandResponse::recieve(&at_reply_bytes(b"ND", &[1, 2, 3])).unwrap();
    assert!(matches!(peer_from_reply(&reply), Err(Error::ApiError(api::Error::FrameError(_)))));
    assert!(matches!(discovered_peers(&vec![reply]), Err(Error::ApiError(api::Error::FrameError(_)))));
}

#[test]
fn discovery_reply_without_data_or_bad_name() {
    let bare = AtCommandResponse::recieve(&at_reply_bytes(b"ND", &[])).unwrap();
    assert!(matches!(peer_from_reply(&bare), Err(Error::DecodeError(_))));
    let mut data = vec![0u8; 10];
    data.extend_from_slice(&[0xc3, 0x28]);
    let bad = AtCommandResponse::recieve(&at_reply_bytes(b"ND", &data)).unwrap();
    assert!(matches!(peer_from_reply(&bad), Err(Error::DecodeError(_))));
}

#[test]
fn discovery_window_reads() {
    let mut replies = Vec::new();
    assert!(discovery_step(&mut replies, &at_reply_bytes(b"ND", &[1; 12])));
    assert_eq!(replies.len(), 1);
    assert!(!discovery_step(&mut replies, &[]));
    assert_eq!(replies.len(), 1);
    assert_eq!(discovery_timeout_ms(None), DISCOVERY_TIMEOUT_MS);
    assert_eq!(discovery_timeout_ms(Some(500)), 500);
}

#[test]
fn line_mode_commands() {
    let enter = AtCommands::CmdMode(true).create();
    assert_eq!(enter.command, "+++");
    assert_eq!(enter.rcr_len, 1);
    assert_eq!(enter.line_bytes(), b"+++".to_vec());
    let leave = AtCommands::CmdMode(false).create();
    assert_eq!(leave.line_bytes(), b"ATCN\r".to_vec());
    let nd = AtCommands::Discover(None).create();
    assert_eq!(nd.rcr_len, 11);
    assert_eq!(nd.line_bytes(), b"ATND\r".to_vec());
    let set = AtCommands::AtCmd(("NI", Some(&b"X1"[..]))).create();
    assert_eq!(set.rcr_len, 1);
    assert_eq!(set.line_bytes(), b"ATNIX1\r".to_vec());
}

#[test]
fn line_reply_ends_at_expected_carriage_return() {
    let mut r = LineReply::new(2);
    assert!(!r.push(b'O'));
    assert!(!r.push(b'K'));
    assert!(!r.push(b'\r'));
    assert!(!r.push(b'x'));
    assert!(r.push(b'\r'));
    assert_eq!(r.received, b"OK\rx\r".to_vec());
    assert_eq!(r.cr_seen, 2);
}

#[test]
fn device_error_messages() {
    assert_eq!(Error::DiscoveryError.message(), "Could not complete discovery mode");
    assert_eq!(Error::DecodeError("bad".to_string()).message(), "bad");
    assert_eq!(Error::ApiError(api::Error::DerefError).message(), "Unable to deref trait");
    assert_eq!(Error::from(api::Error::DerefError).message(), "Unable to deref trait");
    let io = std::io::Error::new(std::io::ErrorKind::Other, "port gone");
    assert_eq!(Error::from(io).message(), "port gone");
}
