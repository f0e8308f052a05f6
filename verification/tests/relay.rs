use rust_ais::broadcaster::{
    check_if_msg_already_passed, msg_eq, BroadcasterMockup, MockupArg, MsgSet, MulticastAddr,
    UdpBroadcaster, UdpBroadcasterArg, UdpBroadcasterParams,
};
use rust_ais::client::{
    raw_nmea_sentence, stamp_boat_state, timestamp_boat_state, BrokenSedner, RawNmeaError,
    UdpSender,
};
use rust_ais::server::{msg_from_datagram, TcpUdpServer, UdpReceiver, DATAGRAM_BUF_SIZE};
use rust_ais::text::{char_is_whitespace, chars_of, find_marker, trim, trim_end_padding_of};
use rust_ais::utils::{
    build_timestamped_ais_message, msg_type_to_string, split_message_on_timestamp,
    string_to_msg_type, text_before_timestamp, AISResponse, MsgType, MSGTYPESIZE, TIMESTAMP,
};

fn msg_of(s: &str) -> MsgType {
    string_to_msg_type(s.to_string())
}

#[test]
fn string_to_msg_type_pads_with_zeros() {
    let msg = msg_of("hello");
    assert_eq!(&msg[..5], b"hello");
    assert!(msg[5..].iter().all(|&b| b == 0));
    assert_eq!(msg.len(), MSGTYPESIZE);
}

#[test]
fn string_to_msg_type_truncates_long_text() {
    let long = "x".repeat(2000);
    let msg = string_to_msg_type(long);
    assert!(msg.iter().all(|&b| b == b'x'));
}

#[test]
fn string_to_msg_type_writes_utf8_bytes() {
    let msg = msg_of("ż");
    assert_eq!(&msg[..3], &[0xC5, 0xBC, 0]);
}

#[test]
fn msg_type_to_string_reads_up_to_first_zero() {
    let mut msg = msg_of("abc");
    msg[5] = b'z';
    assert_eq!(msg_type_to_string(msg), "abc");
}

#[test]
fn msg_type_to_string_full_buffer() {
    let msg = [b'q'; MSGTYPESIZE];
    assert_eq!(msg_type_to_string(msg), "q".repeat(MSGTYPESIZE));
}

#[test]
fn msg_type_to_string_replaces_invalid_utf8() {
    let mut msg = [0u8; MSGTYPESIZE];
    msg[0] = b'a';
    msg[1] = 0xFF;
    msg[2] = b'b';
    assert_eq!(msg_type_to_string(msg), "a\u{FFFD}b");
}

#[test]
fn msg_roundtrip_law_on_values() {
    for s in ["", "!AIVDM,1,1,,A,14eG;o@034o8sd<L9i:a;WF>062D,0*7D", "żółw ⛵"] {
        assert_eq!(msg_type_to_string(msg_of(s)), s);
    }
}

#[test]
fn trim_removes_unicode_whitespace() {
    assert_eq!(trim("\u{3000} \tabc d\n\u{2003}"), "abc d");
    assert_eq!(trim("   "), "");
    assert_eq!(trim(""), "");
    assert_eq!(trim("x"), "x");
}

#[test]
fn trim_end_padding_removes_nul_and_whitespace() {
    assert_eq!(trim_end_padding_of(" ab\0 \n\0\0"), " ab");
    assert_eq!(trim_end_padding_of("a\0b\0"), "a\0b");
}

#[test]
fn chars_of_collects_characters() {
    assert_eq!(chars_of("aż⛵"), vec!['a', 'ż', '⛵']);
}

#[test]
fn find_marker_finds_first_occurrence() {
    assert_eq!(find_marker(&chars_of("xxTIMESTAMPyyTIMESTAMP")), Some(2));
    assert_eq!(find_marker(&chars_of("TIMESTIMESTAMP")), Some(5));
    assert_eq!(find_marker(&chars_of("TIMESTAM")), None);
    assert_eq!(find_marker(&chars_of("")), None);
}

#[test]
fn timestamp_constant_is_the_marker() {
    assert_eq!(TIMESTAMP, "TIMESTAMP");
}

#[test]
fn build_timestamped_ais_message_trims_and_joins() {
    let response = AISResponse {
        ais_message: "  !AIVDM,1,1,,A,abc,0*7D \r\n".to_string(),
        timestamp: "2024-05-01T12:00:00+00:00".to_string(),
    };
    assert_eq!(
        build_timestamped_ais_message(response),
        "!AIVDM,1,1,,A,abc,0*7DTIMESTAMP2024-05-01T12:00:00+00:00"
    );
}

#[test]
fn split_message_on_timestamp_returns_sentence() {
    let (before, _now) =
        split_message_on_timestamp("!AIVDM,abcTIMESTAMP2024-05-01".to_string()).ok().unwrap();
    assert_eq!(before, "!AIVDM,abc");
}

#[test]
fn split_message_on_timestamp_uses_first_marker() {
    let (before, _now) =
        split_message_on_timestamp("aTIMESTAMPbTIMESTAMPc".to_string()).ok().unwrap();
    assert_eq!(before, "a");
}

#[test]
fn split_message_on_timestamp_without_marker_is_error() {
    match split_message_on_timestamp("no marker here".to_string()) {
        Err(msg) => assert_eq!(msg, "no marker here"),
        Ok(_) => panic!("expected an error"),
    }
}

#[test]
fn split_message_on_timestamp_reads_the_clock() {
    let (_, now) = split_message_on_timestamp("aTIMESTAMP".to_string()).ok().unwrap();
    let now = now.unwrap();
    assert!(now.seconds > 1_600_000_000);
    assert!(now.nanos < 1_000_000_000);
    assert!(now.rfc3339.contains('T'));
}

#[test]
fn text_before_timestamp_on_values() {
    assert_eq!(text_before_timestamp("TIMESTAMP"), Some(String::new()));
    assert_eq!(text_before_timestamp("TIMESTAMx"), None);
}

#[test]
fn split_undoes_build_law_on_values() {
    let response = AISResponse {
        ais_message: " !AIVDM,x ".to_string(),
        timestamp: "TIMESTAMP".to_string(),
    };
    let msg = build_timestamped_ais_message(response);
    let (before, _) = split_message_on_timestamp(msg).ok().unwrap();
    assert_eq!(before, "!AIVDM,x");
}

#[test]
fn msg_set_and_duplicate_check() {
    let mut set = MsgSet::new();
    let a = msg_of("a");
    let b = msg_of("b");
    assert!(!set.contains(&a));
    assert!(!check_if_msg_already_passed(a, &mut set));
    assert!(set.contains(&a));
    assert!(check_if_msg_already_passed(a, &mut set));
    assert!(!check_if_msg_already_passed(b, &mut set));
    assert!(check_if_msg_already_passed(b, &mut set));
    assert!(check_if_msg_already_passed(a, &mut set));
}

#[test]
fn msg_set_insert_reports_novelty() {
    let mut set = MsgSet::new();
    assert!(set.insert(msg_of("x")));
    assert!(!set.insert(msg_of("x")));
    assert!(set.insert(msg_of("y")));
}

#[test]
fn forwarded_once_law_on_values() {
    let msgs = ["a", "b", "a", "c", "b", "a"];
    let mut set = MsgSet::new();
    let mut out = Vec::new();
    for m in msgs {
        if !check_if_msg_already_passed(msg_of(m), &mut set) {
            out.push(m);
        }
    }
    assert_eq!(out, vec!["a", "b", "c"]);
}

#[test]
fn msg_eq_compares_all_bytes() {
    let a = msg_of("abc");
    let mut b = a;
    assert!(msg_eq(&a, &b));
    b[MSGTYPESIZE - 1] = 1;
    assert!(!msg_eq(&a, &b));
}

#[test]
fn msg_from_datagram_short() {
    let mut buf = [7u8; DATAGRAM_BUF_SIZE];
    buf[0] = b'h';
    buf[1] = b'i';
    let msg = msg_from_datagram(&buf, 2);
    assert_eq!(&msg[..2], b"hi");
    assert!(msg[2..].iter().all(|&b| b == 0));
}

#[test]
fn msg_from_datagram_oversized_is_cut() {
    let buf = [9u8; DATAGRAM_BUF_SIZE];
    let msg = msg_from_datagram(&buf, DATAGRAM_BUF_SIZE);
    assert!(msg.iter().all(|&b| b == 9));
}

#[test]
fn msg_from_datagram_empty() {
    let buf = [9u8; DATAGRAM_BUF_SIZE];
    let msg = msg_from_datagram(&buf, 0);
    assert!(msg.iter().all(|&b| b == 0));
}

#[test]
fn datagram_carries_msg_law_on_values() {
    let msg = msg_of("!AIVDM,weakTIMESTAMP2024");
    let mut buf = [0u8; DATAGRAM_BUF_SIZE];
    buf[..MSGTYPESIZE].copy_from_slice(&msg);
    assert_eq!(msg_from_datagram(&buf, MSGTYPESIZE), msg);
}

#[test]
fn stamp_boat_state_on_values() {
    let data = msg_of("  !AIVDM,1,1,,A,abc,0*7D\r\n");
    let msg = stamp_boat_state(data, "2024-05-01T12:00:00+00:00".to_string());
    assert_eq!(
        msg_type_to_string(msg),
        "!AIVDM,1,1,,A,abc,0*7DTIMESTAMP2024-05-01T12:00:00+00:00"
    );
}

#[test]
fn stamp_boat_state_of_invalid_bytes() {
    let mut data = [0u8; MSGTYPESIZE];
    data[0] = 0xFF;
    let msg = stamp_boat_state(data, "t".to_string());
    assert_eq!(msg_type_to_string(msg), "\u{FFFD}TIMESTAMPt");
}

#[test]
fn timestamp_boat_state_uses_rfc3339_time() {
    let msg = timestamp_boat_state(msg_of("!AIVDM,now\n")).unwrap();
    let text = msg_type_to_string(msg);
    let ts = text.strip_prefix("!AIVDM,nowTIMESTAMP").unwrap();
    assert!(chrono::DateTime::parse_from_rfc3339(ts).is_ok());
}

#[test]
fn raw_nmea_sentence_ok() {
    let msg = msg_of("!AIVDM,rawTIMESTAMP2024");
    match raw_nmea_sentence(msg) {
        Ok(s) => assert_eq!(s, "!AIVDM,raw"),
        Err(_) => panic!("expected a sentence"),
    }
}

#[test]
fn raw_nmea_sentence_invalid_utf8() {
    let mut msg = msg_of("!AIVDMTIMESTAMP");
    msg[1] = 0xFF;
    assert!(matches!(raw_nmea_sentence(msg), Err(RawNmeaError::InvalidUtf8)));
}

#[test]
fn raw_nmea_sentence_without_timestamp() {
    let msg = msg_of("!AIVDM");
    match raw_nmea_sentence(msg) {
        Err(RawNmeaError::NoTimestamp(text)) => {
            assert!(text.starts_with("!AIVDM\0"));
            assert_eq!(text.chars().count(), MSGTYPESIZE);
        }
        _ => panic!("expected a missing timestamp"),
    }
}

#[test]
fn report_reaches_publisher_law_on_values() {
    let data = msg_of(" !AIVDM,1,1,,B,fleet,0*11 \n");
    let stamped = stamp_boat_state(data, "2024-05-01T12:00:00+00:00".to_string());
    // weak path: the buffer travels as is
    match raw_nmea_sentence(stamped) {
        Ok(s) => assert_eq!(s, "!AIVDM,1,1,,B,fleet,0*11"),
        Err(_) => panic!("weak path lost the sentence"),
    }
    // strong path: the buffer travels as a line
    let line = msg_type_to_string(stamped);
    match raw_nmea_sentence(string_to_msg_type(line)) {
        Ok(s) => assert_eq!(s, "!AIVDM,1,1,,B,fleet,0*11"),
        Err(_) => panic!("strong path lost the sentence"),
    }
}

#[test]
fn tcp_udp_server_keeps_addresses() {
    let server = TcpUdpServer::new("127.0.0.1:6969", "127.0.0.1:4200", "0.0.0.0:2137", "0.0.0.0:2136");
    assert_eq!(server.listener_addr(), "127.0.0.1:6969");
    assert_eq!(server.udp_receiver_addr(), "127.0.0.1:4200");
    assert_eq!(server.real_time_server_address(), "0.0.0.0:2137");
    assert_eq!(server.history_server_address(), "0.0.0.0:2136");
}

#[test]
fn broken_sender_constructors() {
    let _a = BrokenSedner::new();
    let _b = BrokenSedner::default();
    let _p = UdpBroadcasterParams {};
}

#[test]
fn broadcaster_mockup_hands_out_args_once() {
    let (tx, rx) = tokio::sync::broadcast::channel::<MsgType>(16);
    let (local_tx, local_rx) = tokio::sync::mpsc::unbounded_channel::<MsgType>();
    let mut b = BroadcasterMockup::new(rx, tx, (), local_rx, local_tx);
    assert!(b.missing_arg().is_none());
    // the shared channel is handed out with its ends in place
    let (mut rx, tx, (), mut local_rx, local_tx) = b.get_args();
    assert!(tx.send(msg_of("radio")).is_ok());
    assert_eq!(msg_type_to_string(rx.try_recv().unwrap()), "radio");
    assert!(local_tx.send(msg_of("local")).is_ok());
    assert_eq!(msg_type_to_string(local_rx.try_recv().unwrap()), "local");
    // it cannot start again: the first argument is gone
    assert!(matches!(b.missing_arg(), Some(MockupArg::ReceiverArg)));
    let (other_tx, other_rx) = tokio::sync::mpsc::unbounded_channel::<MsgType>();
    b.set_recv_channel(other_rx, other_tx);
    assert!(matches!(b.missing_arg(), Some(MockupArg::ReceiverArg)));
}

#[test]
fn broadcaster_mockup_relays_into_the_channel_it_is_given() {
    let (tx, rx) = tokio::sync::broadcast::channel::<MsgType>(16);
    let (first_tx, first_rx) = tokio::sync::mpsc::unbounded_channel::<MsgType>();
    let mut b = BroadcasterMockup::new(rx, tx, (), first_rx, first_tx);
    // the client's channel replaces both ends given at construction
    let (client_tx, client_rx) = tokio::sync::mpsc::unbounded_channel::<MsgType>();
    b.set_recv_channel(client_rx, client_tx);
    let (_rx, _tx, (), mut local_rx, local_tx) = b.get_args();
    // what the broadcaster relays comes back out of the receiving end it sends from
    assert!(local_tx.send(msg_of("heard")).is_ok());
    assert_eq!(msg_type_to_string(local_rx.try_recv().unwrap()), "heard");
}

#[test]
fn udp_receiver_without_socket_has_nothing_to_hand_out() {
    let r = UdpReceiver::with_socket(None);
    assert!(!r.finish_accepting());
    assert!(!r.holds_socket());
}

#[test]
fn udp_receiver_accepts_its_socket_once() {
    let rt = tokio::runtime::Runtime::new().unwrap();
    rt.block_on(async {
        let socket = tokio::net::UdpSocket::bind("127.0.0.1:0").await.unwrap();
        let addr = socket.local_addr().unwrap();
        let mut r = UdpReceiver::with_socket(Some(socket));
        assert!(!r.finish_accepting());
        assert!(r.holds_socket());
        let first = r.accept_client();
        assert_eq!(first.local_addr().unwrap(), addr);
        assert!(r.finish_accepting());
        assert!(!r.holds_socket());
    });
}

#[test]
fn udp_broadcaster_needs_its_channel_and_starts_once() {
    let rt = tokio::runtime::Runtime::new().unwrap();
    rt.block_on(async {
        let sender = tokio::net::UdpSocket::bind("127.0.0.1:0").await.unwrap();
        let receiver = tokio::net::UdpSocket::bind("127.0.0.1:0").await.unwrap();
        let receiver_addr = receiver.local_addr().unwrap();
        let log = UdpSender::from_socket(tokio::net::UdpSocket::bind("127.0.0.1:0").await.unwrap());
        let group = MulticastAddr { ip: [224, 0, 0, 2], port: 6789 };
        let mut b = UdpBroadcaster::from_sockets(sender, receiver, log, group);
        // the local channel is not set yet
        assert!(matches!(b.missing_arg(), Some(UdpBroadcasterArg::LocalRecvChannel)));
        let (local_tx, local_rx) = tokio::sync::mpsc::unbounded_channel::<MsgType>();
        b.set_recv_channel(local_rx, local_tx);
        assert!(b.missing_arg().is_none());
        let (recv_socket, (_send_socket, addr), _log, _rx, _tx) = b.get_args();
        assert_eq!(recv_socket.local_addr().unwrap(), receiver_addr);
        assert_eq!(addr.ip, [224, 0, 0, 2]);
        assert_eq!(addr.port, 6789);
        assert!(matches!(b.missing_arg(), Some(UdpBroadcasterArg::ReceiverSocket)));
    });
}

#[test]
fn char_is_whitespace_agrees_with_std_on_every_char() {
    for c in (0u32..=0x10FFFF).filter_map(char::from_u32) {
        assert_eq!(char_is_whitespace(c), c.is_whitespace(), "{:?}", c);
    }
}

#[test]
fn trim_agrees_with_std_on_unicode_spaces() {
    let s = "\u{3000}\u{2028} x\u{200b}y\u{85}\u{a0}\u{202f}";
    assert_eq!(trim(s), s.trim());
    assert_eq!(trim(s), "x\u{200b}y");
}

#[test]
fn buffer_roundtrip_law_on_values() {
    let mut buf: MsgType = [0u8; MSGTYPESIZE];
    buf[..6].copy_from_slice("żagle".as_bytes());
    assert_eq!(string_to_msg_type(msg_type_to_string(buf)), buf);
}
