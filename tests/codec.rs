use rustbee::api::{
    calc_checksum, decode, AtCommandFrame, AtCommandResponse, Error, FrameId, InboundFrame, MessagingMode,
    NullRecieve, RecieveApiFrame, RemoteAtCommandFrame, RemoteAtCommandResponse, RemoteCommandOptions,
    ReplyRead, ReplyTimeout, TransmitApiFrame, TransmitRequestFrame, TransmitRequestOptions, TransmitStatus,
    BROADCAST_ADDR, DELIM,
};

fn sum_after_length(frame: &[u8]) -> u32 {
    frame[3..].iter().map(|b| *b as u32).sum::<u32>() % 256
}

fn length_field(frame: &[u8]) -> usize {
    ((frame[1] as usize) << 8) | frame[2] as usize
}

#[test]
fn at_command_frame_exact_bytes() {
    let f = AtCommandFrame("NI", None).gen_with_id(0x05).unwrap();
    let cks = 0xff - ((0x08u32 + 0x05 + 0x4e + 0x49) % 256) as u8;
    assert_eq!(&f[..], &[0x7e, 0x00, 0x04, 0x08, 0x05, 0x4e, 0x49, cks][..]);
}

#[test]
fn at_command_frame_with_parameter() {
    let f = AtCommandFrame("NI", Some(&b"MY_NODE"[..])).gen_with_id(1).unwrap();
    assert_eq!(f[0], DELIM);
    assert_eq!(length_field(&f), 2 + 2 + 7);
    assert_eq!(&f[5..14], &b"NIMY_NODE"[..]);
    assert_eq!(f.len(), 15);
}

#[test]
fn transmit_request_frame_layout() {
    let opts = TransmitRequestOptions {
        disable_ack: true,
        disable_route_discovery: false,
        enable_unicast_nack: false,
        enable_unicast_trace_route: false,
        mode: MessagingMode::DigiMesh,
    };
    let payload = [0xaa, 0xbb, 0xcc];
    let frame = TransmitRequestFrame {
        dest_addr: 0x0013_a200_4012_3456,
        broadcast_radius: 0,
        options: Some(&opts),
        payload: &payload,
    };
    let f = frame.gen_with_id(0x42).unwrap();
    assert_eq!(
        &f[..f.len() - 1],
        &[
            0x7e, 0x00, 0x11, 0x90, 0x42, 0x00, 0x13, 0xa2, 0x00, 0x40, 0x12, 0x34, 0x56, 0xff, 0xfe, 0x00,
            0xc1, 0xaa, 0xbb, 0xcc
        ][..]
    );
    assert_eq!(sum_after_length(&f), 0xff);
}

#[test]
fn remote_at_command_frame_layout() {
    let opts = RemoteCommandOptions { apply_changes: true };
    let param = [0x7f, 0xff];
    let frame = RemoteAtCommandFrame { dest_addr: BROADCAST_ADDR, options: &opts, atcmd: "ID", cmd_param: Some(&param) };
    let f = frame.gen_with_id(7).unwrap();
    assert_eq!(
        &f[..f.len() - 1],
        &[0x7e, 0x00, 0x11, 0x17, 0x07, 0, 0, 0, 0, 0, 0, 0xff, 0xff, 0xff, 0xfe, 0x02, 0x49, 0x44, 0x7f, 0xff][..]
    );
    assert_eq!(sum_after_length(&f), 0xff);
}

#[test]
fn checksum_sums_to_ff_for_every_kind() {
    let payload = vec![1u8; 300];
    let opts = RemoteCommandOptions { apply_changes: false };
    let frames = vec![
        TransmitRequestFrame { dest_addr: 1, broadcast_radius: 3, options: None, payload: &payload }.gen().unwrap(),
        AtCommandFrame("VR", None).gen().unwrap(),
        RemoteAtCommandFrame { dest_addr: 9, options: &opts, atcmd: "NI", cmd_param: None }.gen().unwrap(),
    ];
    for f in frames.iter() {
        assert_eq!(sum_after_length(f), 0xff);
    }
}

#[test]
fn length_field_counts_all_but_delimiter_length_and_checksum() {
    let payload = vec![9u8; 1000];
    let opts = RemoteCommandOptions { apply_changes: true };
    let frames = vec![
        TransmitRequestFrame { dest_addr: 1, broadcast_radius: 0, options: None, payload: &payload }.gen().unwrap(),
        AtCommandFrame("NI", Some(&payload[..10])).gen().unwrap(),
        RemoteAtCommandFrame { dest_addr: 2, options: &opts, atcmd: "ID", cmd_param: Some(&payload[..5]) }
            .gen()
            .unwrap(),
    ];
    for f in frames.iter() {
        assert_eq!(length_field(f), f.len() - 4);
    }
}

#[test]
fn transmit_request_payload_limit() {
    let ok_payload = vec![0u8; 65424];
    let frame = TransmitRequestFrame { dest_addr: 1, broadcast_radius: 0, options: None, payload: &ok_payload };
    let f = frame.gen().unwrap();
    assert_eq!(length_field(&f), 65424 + 14);
    let big_payload = vec![0u8; 65425];
    let frame = TransmitRequestFrame { dest_addr: 1, broadcast_radius: 0, options: None, payload: &big_payload };
    assert!(matches!(frame.gen(), Err(Error::PayloadError(_))));
}

#[test]
fn at_command_parameter_too_large() {
    let param = vec![0u8; 65532];
    assert!(matches!(AtCommandFrame("NI", Some(&param)).gen(), Err(Error::PayloadError(_))));
    let param = vec![0u8; 65531];
    assert!(AtCommandFrame("NI", Some(&param)).gen().is_ok());
}

#[test]
fn at_command_encode_then_decode_recovers_command() {
    let f = AtCommandFrame("NI", None).gen_with_id(0x33).unwrap();
    let reply = AtCommandResponse::recieve(&f[..]).unwrap();
    assert_eq!(reply.at_command, b"NI".to_vec());
    assert_eq!(reply.frame_id, 0x33);
    assert!(reply.command_data.is_none());
}

#[test]
fn options_byte() {
    let all = TransmitRequestOptions {
        disable_ack: true,
        disable_route_discovery: true,
        enable_unicast_nack: true,
        enable_unicast_trace_route: true,
        mode: MessagingMode::DigiMesh,
    };
    assert_eq!(all.compile(), 0xcf);
    let none = TransmitRequestOptions {
        disable_ack: false,
        disable_route_discovery: false,
        enable_unicast_nack: false,
        enable_unicast_trace_route: false,
        mode: MessagingMode::PointToPoint,
    };
    assert_eq!(none.compile(), 0x40);
    let some = TransmitRequestOptions {
        disable_ack: false,
        disable_route_discovery: true,
        enable_unicast_nack: false,
        enable_unicast_trace_route: true,
        mode: MessagingMode::Repeater,
    };
    assert_eq!(some.compile(), 0x8a);
}

#[test]
fn checksum_of_short_frame_fails() {
    assert!(matches!(calc_checksum(&[0x7e, 0, 1, 8]), Err(Error::FrameError(_))));
    assert_eq!(calc_checksum(&[0x7e, 0, 2, 0x08, 0x01]).unwrap(), 0xff - 0x09);
    assert_eq!(calc_checksum(&[0x7e, 0, 3, 0xff, 0xff, 0x03]).unwrap(), 0xff - 0x01);
    let frame = AtCommandFrame("NI", None);
    assert_eq!(frame.calc_checksum(&[0x7e, 0, 2, 0x08, 0x01]).unwrap(), 0xf6);
    assert!(matches!(frame.calc_checksum(&[]), Err(Error::FrameError(_))));
}

#[test]
fn frame_kind_ids() {
    assert_eq!(FrameId::TransmitRequest.id(), 0x90);
    assert_eq!(FrameId::TransmitStatus.id(), 0x8b);
    assert_eq!(FrameId::AtCommand.id(), 0x08);
    assert_eq!(FrameId::AtCommandResponse.id(), 0x88);
    assert_eq!(FrameId::RemoteAtCommand.id(), 0x17);
    assert_eq!(FrameId::RemoteAtCommandResponse.id(), 0x97);
    assert_eq!(AtCommandFrame("NI", None).delim(), 0x7e);
}

#[test]
fn reply_registry() {
    assert_eq!(FrameId::TransmitRequest.reply_kind(), FrameId::TransmitStatus);
    assert_eq!(FrameId::AtCommand.reply_kind(), FrameId::AtCommandResponse);
    assert_eq!(FrameId::RemoteAtCommand.reply_kind(), FrameId::RemoteAtCommandResponse);
    assert_eq!(FrameId::Null.reply_kind(), FrameId::Null);
    assert_eq!(FrameId::TransmitRequest.reply_timeout(), ReplyTimeout::Ambient);
    assert_eq!(FrameId::AtCommand.reply_timeout(), ReplyTimeout::Millis(100));
    assert_eq!(FrameId::RemoteAtCommand.reply_timeout(), ReplyTimeout::Millis(3000));
    assert_eq!(FrameId::Null.reply_timeout(), ReplyTimeout::Ambient);
    assert_eq!(FrameId::TransmitRequest.reply_read(), ReplyRead::Exact(11));
    assert_eq!(FrameId::AtCommand.reply_read(), ReplyRead::UntilTimeout);
    assert_eq!(FrameId::RemoteAtCommand.reply_read(), ReplyRead::UntilTimeout);
    assert_eq!(FrameId::Null.reply_read(), ReplyRead::Nothing);
}

#[test]
fn remote_response_address() {
    let buf = [
        0x7e, 0x00, 0x0f, 0x97, 0x09, 0x01, 0x02, 0x03, 0x04, 0x05, 0x06, 0x07, 0x08, 0xff, 0xfe, 0x49, 0x44, 0x00,
        0x7f, 0xff, 0x55,
    ];
    let r = RemoteAtCommandResponse::recieve(&buf).unwrap();
    assert_eq!(r.dest_addr, 0x0102030405060708);
    assert_eq!(r.frame_id, 0x09);
    assert_eq!(r.at_command, b"ID".to_vec());
    assert_eq!(r.command_status, 0);
    assert_eq!(&r.command_data.as_ref().unwrap()[..], &[0x7f, 0xff][..]);
    assert_eq!(&r.payload().unwrap()[..], &buf[..]);
    assert_eq!(r.id(), FrameId::RemoteAtCommandResponse);
}

#[test]
fn remote_response_too_short() {
    let buf = [0u8; 17];
    assert!(matches!(RemoteAtCommandResponse::recieve(&buf), Err(Error::FrameError(_))));
    let buf = [0u8; 18];
    assert!(RemoteAtCommandResponse::recieve(&buf).unwrap().command_data.is_none());
}

#[test]
fn at_response_offsets() {
    let buf = [0x7e, 0x00, 0x07, 0x88, 0x01, 0x56, 0x52, 0x00, 0x10, 0x0b, 0xcc];
    let r = AtCommandResponse::recieve(&buf).unwrap();
    assert_eq!(r.frame_id, 1);
    assert_eq!(r.at_command, b"VR".to_vec());
    assert_eq!(r.command_status, 0);
    assert_eq!(&r.command_data.as_ref().unwrap()[..], &[0x10, 0x0b][..]);
    let nine = [0x7e, 0x00, 0x05, 0x88, 0x01, 0x56, 0x52, 0x00, 0x1d];
    assert!(AtCommandResponse::recieve(&nine).unwrap().command_data.is_none());
}

#[test]
fn at_response_empty_or_short() {
    assert!(matches!(AtCommandResponse::recieve(&[]), Err(Error::FrameError(_))));
    assert!(matches!(AtCommandResponse::recieve(&[0x7e, 0, 4, 0x88, 1, 0x4e, 0x49]), Err(Error::FrameError(_))));
}

#[test]
fn transmit_status_offsets() {
    let buf = [0x7e, 0x00, 0x07, 0x8b, 0x05, 0xff, 0xfe, 0x02, 0x00, 0x01, 0x6f];
    let s = TransmitStatus::recieve(&buf).unwrap();
    assert_eq!(s.frame_id, 5);
    assert_eq!(s.transmit_retry_count, 2);
    assert_eq!(s.deliver_status, 0);
    assert_eq!(s.discovery_status, 1);
    assert_eq!(&s.payload().unwrap()[..], &buf[..]);
    assert!(matches!(TransmitStatus::recieve(&buf[..10]), Err(Error::FrameError(_))));
}

#[test]
fn decode_by_kind() {
    let buf = [0x7e, 0x00, 0x07, 0x8b, 0x05, 0xff, 0xfe, 0x02, 0x00, 0x01, 0x6f];
    assert!(matches!(decode(&buf, FrameId::TransmitStatus), Ok(InboundFrame::TransmitStatus(_))));
    assert!(matches!(decode(&buf, FrameId::AtCommandResponse), Ok(InboundFrame::AtCommandResponse(_))));
    assert!(matches!(decode(&buf, FrameId::RemoteAtCommandResponse), Err(Error::FrameError(_))));
    assert!(matches!(decode(&[], FrameId::Null), Ok(InboundFrame::Null(_))));
}

#[test]
fn null_reply_has_no_payload() {
    let n = NullRecieve::recieve(&[1, 2, 3]).unwrap();
    assert_eq!(n.id(), FrameId::Null);
    assert!(matches!(n.payload(), Err(Error::FrameError(_))));
}

#[test]
fn api_error_messages() {
    assert_eq!(Error::DerefError.message(), "Unable to deref trait");
    assert_eq!(Error::FrameError("short".to_string()).message(), "short");
    assert_eq!(Error::PayloadError("big".to_string()).message(), "big");
}
