use bytes::BytesMut;
use clash_inbound::hysteria2::address::to_socksaddr;
use clash_inbound::hysteria2::codec::{
    Hy2TcpCodec, Hy2TcpReqCodec, Hy2TcpRespEncoder, Hy2TcpRespMsg, MAX_HY2_TCP_ADDR_LEN,
    MAX_HY2_TCP_PADDING_LEN,
};
use clash_inbound::hysteria2::defrag::Defragger;
use clash_inbound::hysteria2::error::{CodecError, ErrorKind};
use clash_inbound::hysteria2::padding::padding;
use clash_inbound::hysteria2::sessions::{PacketIds, UdpSessions, UdpStep};
use clash_inbound::hysteria2::udp::{send_hys_datagram, Fragments, HysUdpPacket};
use clash_inbound::hysteria2::varint::{peek_varint, var_size};
use clash_inbound::net::addr::{IpAddr, SocketAddr, SocksAddr};
use quinn_proto::coding::Codec;
use quinn_proto::VarInt;

fn loopback(port: u16) -> SocksAddr {
    SocksAddr::Ip(SocketAddr::new(IpAddr::V4(127, 0, 0, 1), port))
}

#[test]
fn hy2_resp_parse() {
    let mut src = BytesMut::from(&[0x00, 0x03, 0x61, 0x62, 0x63, 0x00][..]);
    let msg = Hy2TcpCodec.decode(&mut src).unwrap().unwrap();
    assert!(msg.status == 0);
    assert!(msg.msg == "abc");

    let mut src = BytesMut::from(&[0x01, 0x00, 0x00][..]);
    let msg = Hy2TcpCodec.decode(&mut src).unwrap().unwrap();
    assert!(msg.status == 0x1);
    assert!(msg.msg.is_empty());
}

#[test]
fn test_decode_addr() {
    let addr = loopback(80);
    let addr_bytes = addr.text().into_bytes();
    assert_eq!(addr_bytes, b"127.0.0.1:80");
    let decoded_addr = to_socksaddr(&addr_bytes).unwrap();
    assert_eq!(addr, decoded_addr);

    let addr = SocksAddr::Domain("example.com".to_string(), 80);
    let addr_bytes = addr.text().into_bytes();
    let decoded_addr = to_socksaddr(&addr_bytes).unwrap();
    assert_eq!(addr, decoded_addr);
}

#[test]
fn defragger_reassembles_interleaved_packets_by_packet_id() {
    let addr = loopback(53);
    let packet = |pkt_id, frag_id, data: &[u8]| HysUdpPacket {
        session_id: 1,
        pkt_id,
        frag_id,
        frag_count: 2,
        addr: addr.clone(),
        data: data.to_vec(),
    };

    let mut defragger = Defragger::default();
    assert!(defragger.feed(packet(1, 0, b"he")).is_none());
    assert!(defragger.feed(packet(2, 0, b"wo")).is_none());

    let first = defragger.feed(packet(1, 1, b"llo")).unwrap();
    assert_eq!(first.pkt_id, 1);
    assert_eq!(first.data, b"hello");

    let second = defragger.feed(packet(2, 1, b"rld")).unwrap();
    assert_eq!(second.pkt_id, 2);
    assert_eq!(second.data, b"world");
}

#[test]
fn defragger_rejects_invalid_single_fragment_id() {
    let pkt = HysUdpPacket {
        session_id: 1,
        pkt_id: 1,
        frag_id: 1,
        frag_count: 1,
        addr: loopback(53),
        data: b"x".to_vec(),
    };

    assert!(Defragger::default().feed(pkt).is_none());
}

#[test]
fn fragments_try_new_emits_one_fragment_for_empty_payload() {
    let mut fragments = Fragments::try_new(1, 1, loopback(53), 1200, &[]).unwrap();
    assert_eq!(fragments.len(), 1);
    let mut collected = Vec::new();
    while let Some(fragment) = fragments.next() {
        collected.push(fragment);
    }
    assert_eq!(collected.len(), 1);
}

#[test]
fn tcp_request_decoder_keeps_trailing_stream_payload() {
    let addr = SocksAddr::Domain("example.com".to_owned(), 443);
    let mut buf = BytesMut::new();
    Hy2TcpCodec.encode(&addr, &mut buf).unwrap();
    buf.extend_from_slice(b"first tcp bytes");

    let req = Hy2TcpReqCodec.decode(&mut buf).unwrap().unwrap();
    assert_eq!(req.addr, addr);
    assert_eq!(&buf[..], b"first tcp bytes");
}

#[test]
fn tcp_request_decoder_rejects_oversized_addr_len_before_buffering() {
    let mut buf = BytesMut::new();
    VarInt::from_u32(0x401).encode(&mut buf);
    VarInt::from_u32((MAX_HY2_TCP_ADDR_LEN + 1) as u32).encode(&mut buf);

    let err = Hy2TcpReqCodec.decode(&mut buf).unwrap_err();
    assert_eq!(err.kind(), ErrorKind::InvalidData);
}

#[test]
fn tcp_request_decoder_rejects_oversized_padding_len_before_buffering() {
    let addr = SocksAddr::Domain("example.com".to_owned(), 443);
    let addr = addr.text();
    let mut buf = BytesMut::new();
    VarInt::from_u32(0x401).encode(&mut buf);
    VarInt::from_u32(addr.len() as u32).encode(&mut buf);
    buf.extend_from_slice(addr.as_bytes());
    VarInt::from_u32((MAX_HY2_TCP_PADDING_LEN + 1) as u32).encode(&mut buf);

    let err = Hy2TcpReqCodec.decode(&mut buf).unwrap_err();
    assert_eq!(err.kind(), ErrorKind::InvalidData);
}

#[test]
fn varints_have_the_size_that_the_transport_gives_them() {
    for value in [0u64, 63, 64, 16383, 16384, (1 << 30) - 1, 1 << 30, (1 << 62) - 1] {
        let mut buf = BytesMut::new();
        VarInt::from_u64(value).unwrap().encode(&mut buf);
        assert_eq!(var_size(value), buf.len());
        assert_eq!(peek_varint(&buf, 0), Some((value, buf.len())));
        assert_eq!(peek_varint(&buf[..buf.len() - 1], 0), None);
    }
}

#[test]
fn request_decoder_waits_for_the_whole_request() {
    let addr = SocksAddr::Ip(SocketAddr::new(IpAddr::V6(0x2001, 0xdb8, 0, 0, 0, 0, 0, 1), 8443));
    let mut whole = BytesMut::new();
    Hy2TcpCodec.encode(&addr, &mut whole).unwrap();
    assert_eq!(&whole[..2], &[0x44, 0x01]);
    for len in 0..whole.len() {
        let mut part = BytesMut::from(&whole[..len]);
        assert!(Hy2TcpReqCodec.decode(&mut part).unwrap().is_none());
        assert_eq!(part.len(), len);
    }
    let req = Hy2TcpReqCodec.decode(&mut whole).unwrap().unwrap();
    assert_eq!(req.addr, addr);
    assert!(whole.is_empty());
}

#[test]
fn request_decoder_names_what_is_wrong() {
    let mut buf = BytesMut::from(&[0x05][..]);
    let err = Hy2TcpReqCodec.decode(&mut buf).unwrap_err();
    assert_eq!(err, CodecError::RequestId(5));
    assert_eq!(err.kind(), ErrorKind::InvalidData);

    let request = |addr: &[u8]| {
        let mut buf = BytesMut::new();
        VarInt::from_u32(0x401).encode(&mut buf);
        VarInt::from_u32(addr.len() as u32).encode(&mut buf);
        buf.extend_from_slice(addr);
        VarInt::from_u32(0).encode(&mut buf);
        Hy2TcpReqCodec.decode(&mut buf).unwrap_err()
    };
    assert_eq!(request(b"\xff:80"), CodecError::AddressUtf8);
    assert_eq!(request(b"example.com"), CodecError::AddressFormat);
    assert_eq!(request(b"example.com:99999"), CodecError::AddressPort);
    assert_eq!(request(b"example.com").kind(), ErrorKind::InvalidInput);
}

#[test]
fn responses_come_back_as_they_were_sent() {
    let mut buf = BytesMut::new();
    Hy2TcpRespEncoder
        .encode(
            Hy2TcpRespMsg {
                status: 1,
                msg: "no route to größe".to_owned(),
            },
            &mut buf,
        )
        .unwrap();
    Hy2TcpRespEncoder.encode(Hy2TcpRespMsg::ok(), &mut buf).unwrap();
    let first = Hy2TcpCodec.decode(&mut buf).unwrap().unwrap();
    assert_eq!((first.status, first.msg.as_str()), (1, "no route to größe"));
    let second = Hy2TcpCodec.decode(&mut buf).unwrap().unwrap();
    assert_eq!((second.status, second.msg.as_str()), (0, ""));
    assert!(buf.is_empty());
}

#[test]
fn paddings_are_letters_and_digits_within_their_range() {
    let mut lengths = Vec::new();
    for _ in 0..200 {
        let bytes = padding(64, 512);
        assert!((64..=512).contains(&bytes.len()));
        assert!(bytes.iter().all(u8::is_ascii_alphanumeric));
        lengths.push(bytes.len());
    }
    lengths.dedup();
    assert!(lengths.len() > 1);
    assert_eq!(padding(7, 7).len(), 7);
}

#[test]
fn datagrams_survive_fragmentation() {
    let payload: Vec<u8> = (0..3000u32).map(|value| (value * 7) as u8).collect();
    let addr = SocksAddr::Domain("example.com".to_owned(), 53);
    let mut fragments = Fragments::try_new(9, 77, addr.clone(), 400, &payload).unwrap();
    let total = fragments.len();
    assert!(total > 1);
    let mut sent = Vec::new();
    while let Some(fragment) = fragments.next() {
        assert!(fragment.len() <= 400);
        sent.push(fragment);
    }
    assert_eq!(sent.len(), total);

    let mut defragger = Defragger::new(4, 64, 1_000_000_000);
    let mut whole = None;
    for (index, fragment) in sent.iter().rev().enumerate() {
        let packet = HysUdpPacket::decode(&mut BytesMut::from(&fragment[..])).unwrap();
        assert_eq!(packet.session_id, 9);
        assert_eq!(packet.pkt_id, 77);
        assert_eq!(packet.frag_count as usize, total);
        whole = defragger.feed_at(packet, index as u128);
        assert_eq!(whole.is_some(), index + 1 == total);
    }
    let whole = whole.unwrap();
    assert_eq!(whole.addr, addr);
    assert_eq!(whole.data, payload);
}

#[test]
fn datagrams_that_do_not_fit_are_refused() {
    let addr = SocksAddr::Domain("example.com".to_owned(), 53);
    match Fragments::try_new(1, 1, addr.clone(), 10, b"x") {
        Err(error) => assert_eq!(error, CodecError::UdpAddressTooLarge),
        Ok(_) => panic!("the address leaves no room"),
    }
    match Fragments::try_new(1, 1, addr, 30, &[0u8; 4000]) {
        Err(error) => assert_eq!(error, CodecError::UdpPayloadTooLarge),
        Ok(_) => panic!("there are not that many fragments"),
    }
}

#[test]
fn datagrams_are_sent_in_fragments() {
    let addr = SocksAddr::Domain("example.com".to_owned(), 53);
    let sent = send_hys_datagram(7, 9, addr.clone(), Some(60), &[5u8; 100]).unwrap();
    assert!(sent.len() > 1);
    let mut whole = None;
    let mut defragger = Defragger::default();
    for fragment in &sent {
        assert!(fragment.len() <= 60);
        let packet = HysUdpPacket::decode(&mut BytesMut::from(&fragment[..])).unwrap();
        whole = defragger.feed(packet);
    }
    assert_eq!(whole.unwrap().data, vec![5u8; 100]);
    match send_hys_datagram(7, 9, addr, None, b"x") {
        Err(error) => {
            assert_eq!(error, CodecError::NoDatagrams);
            assert_eq!(error.kind(), ErrorKind::Other);
        }
        Ok(_) => panic!("the connection carries no datagrams"),
    }
}

#[test]
fn short_packets_are_refused() {
    match HysUdpPacket::decode(&mut BytesMut::from(&[0u8; 7][..])) {
        Err(error) => assert_eq!(error, CodecError::PacketTooShort),
        Ok(_) => panic!("the head is missing"),
    }
    match HysUdpPacket::decode(&mut BytesMut::from(&[0, 0, 0, 1, 0, 1, 0, 1, 9, b'x'][..])) {
        Err(error) => assert_eq!(error, CodecError::AddressExceedsPacket(9, 1)),
        Ok(_) => panic!("the address is cut"),
    }
}

#[test]
fn stale_fragments_are_forgotten() {
    let packet = |frag_id, data: &[u8]| HysUdpPacket {
        session_id: 1,
        pkt_id: 1,
        frag_id,
        frag_count: 2,
        addr: loopback(53),
        data: data.to_vec(),
    };
    let mut defragger = Defragger::new(4, 64, 1000);
    assert!(defragger.feed_at(packet(0, b"he"), 0).is_none());
    assert!(defragger.feed_at(packet(1, b"llo"), 5000).is_none());
    let whole = defragger.feed_at(packet(0, b"he"), 5001).unwrap();
    assert_eq!(whole.data, b"hello");
}

#[test]
fn sessions_open_once_and_end_when_idle() {
    let packet = |session_id, pkt_id| HysUdpPacket {
        session_id,
        pkt_id,
        frag_id: 0,
        frag_count: 1,
        addr: loopback(53),
        data: b"query".to_vec(),
    };
    let mut sessions = UdpSessions::new();
    match sessions.receive(packet(5, 1), 10) {
        UdpStep::Take {
            session_id,
            opened,
            evicted,
            complete,
        } => {
            assert_eq!(session_id, 5);
            assert_eq!(opened, Some(loopback(53)));
            assert_eq!(evicted, None);
            assert_eq!(complete.unwrap().data, b"query");
        }
        UdpStep::Drop => panic!("a whole datagram is taken"),
    }
    match sessions.receive(packet(5, 2), 20) {
        UdpStep::Take { opened, .. } => assert!(opened.is_none()),
        UdpStep::Drop => panic!("a whole datagram is taken"),
    }
    sessions.prune_idle_now();
    sessions.prune_idle(20 + 119_000_000_000);
    assert_eq!(sessions.entries.len(), 1);
    sessions.prune_idle(20 + 121_000_000_000);
    assert_eq!(sessions.entries.len(), 0);
}

#[test]
fn the_oldest_session_makes_room() {
    let mut sessions = UdpSessions::new();
    for session_id in 0..512u32 {
        sessions.receive(
            HysUdpPacket {
                session_id,
                pkt_id: 1,
                frag_id: 0,
                frag_count: 1,
                addr: loopback(53),
                data: Vec::new(),
            },
            1000 + session_id as u128,
        );
    }
    assert_eq!(sessions.entries.len(), 512);
    match sessions.receive(
        HysUdpPacket {
            session_id: 9999,
            pkt_id: 1,
            frag_id: 0,
            frag_count: 1,
            addr: loopback(53),
            data: Vec::new(),
        },
        9999,
    ) {
        UdpStep::Take { evicted, .. } => assert_eq!(evicted, Some(0)),
        UdpStep::Drop => panic!("a new session is taken"),
    }
    assert_eq!(sessions.entries.len(), 512);
    sessions.remove(9999);
    assert_eq!(sessions.entries.len(), 511);
}

#[test]
fn malformed_datagrams_are_dropped() {
    let mut sessions = UdpSessions::new();
    match sessions.on_datagram(&mut BytesMut::from(&b"xx"[..])) {
        UdpStep::Drop => {}
        UdpStep::Take { .. } => panic!("this is no packet"),
    }
}

#[test]
fn packet_numbers_count_up() {
    let mut ids = PacketIds::new();
    let first = ids.take();
    assert_eq!(ids.take(), first.wrapping_add(1));
    assert_eq!(ids.take(), first.wrapping_add(2));
}

#[test]
fn interleaved_datagrams_survive_the_expiry_of_others() {
    let addr = loopback(53);
    let packet = |pkt_id, frag_id, frag_count, data: &[u8]| HysUdpPacket {
        session_id: 1,
        pkt_id,
        frag_id,
        frag_count,
        addr: addr.clone(),
        data: data.to_vec(),
    };
    let mut defragger = Defragger::new(3, 8, 100);
    assert!(defragger.feed_at(packet(9, 0, 2, b"old"), 0).is_none());
    assert!(defragger.feed_at(packet(1, 2, 3, b"c"), 50).is_none());
    assert!(defragger.feed_at(packet(2, 1, 2, b"y"), 60).is_none());
    assert_eq!(defragger.feed_at(packet(3, 0, 1, b"whole"), 70).unwrap().data, b"whole");
    assert!(defragger.feed_at(packet(1, 0, 3, b"a"), 110).is_none());
    assert!(defragger.feed_at(packet(4, 0, 2, b"?"), 111).is_none());
    assert_eq!(defragger.feed_at(packet(2, 0, 2, b"x"), 120).unwrap().data, b"xy");
    let whole = defragger.feed_at(packet(1, 1, 3, b"b"), 149).unwrap();
    assert_eq!((whole.pkt_id, whole.frag_id, whole.frag_count), (1, 0, 1));
    assert_eq!(whole.data, b"abc");

    for frag_id in [1, 0] {
        assert!(defragger.feed_at(packet(1, frag_id, 3, &[frag_id]), 150).is_none());
    }
    let again = defragger.feed_at(packet(1, 2, 3, &[2]), 151).unwrap();
    assert_eq!(again.data, [0, 1, 2]);
}

#[test]
fn fragments_fill_their_limit_for_every_address() {
    let payload = (0..1000u32).map(|value| value as u8).collect::<Vec<_>>();
    let label = SocksAddr::Ip(SocketAddr {
        ip: IpAddr::V6(0xfe80, 0, 0, 0, 0, 0, 0, 1),
        port: 53,
        flowinfo: 7,
        scope_id: 3,
    });
    let kept = SocksAddr::Ip(SocketAddr {
        ip: IpAddr::V6(0xfe80, 0, 0, 0, 0, 0, 0, 1),
        port: 53,
        flowinfo: 0,
        scope_id: 3,
    });
    for (addr, read) in [
        (SocksAddr::Domain("127.0.0.1".to_owned(), 80), loopback(80)),
        (
            SocksAddr::Domain("a:b".to_owned(), 80),
            SocksAddr::Domain("a:b".to_owned(), 80),
        ),
        (label, kept),
    ] {
        let mut fragments = Fragments::try_new(7, 8, addr, 100, &payload).unwrap();
        let total = fragments.len();
        let mut data = Vec::new();
        for index in 0..total {
            assert_eq!(fragments.len(), total - index);
            let bytes = fragments.next().unwrap();
            assert!(bytes.len() == 100 || (index + 1 == total && bytes.len() < 100));
            let packet = HysUdpPacket::decode(&mut BytesMut::from(&bytes[..])).unwrap();
            assert_eq!((packet.session_id, packet.pkt_id), (7, 8));
            assert_eq!(
                (packet.frag_id as usize, packet.frag_count as usize),
                (index, total)
            );
            assert_eq!(packet.addr, read);
            data.extend_from_slice(&packet.data);
        }
        assert!(fragments.next().is_none());
        assert_eq!(data, payload);
    }
}

#[test]
fn broken_messages_leave_what_was_not_read() {
    let left = |bytes: &[u8]| {
        let mut buf = BytesMut::from(bytes);
        let error = HysUdpPacket::decode(&mut buf).unwrap_err();
        (error, buf.to_vec())
    };
    let head = [0, 0, 0, 1, 0, 2, 0, 1];
    let with = |tail: &[u8]| [&head[..], tail].concat();
    assert_eq!(left(&head[..7]), (CodecError::PacketTooShort, head[..7].to_vec()));
    assert_eq!(left(&head), (CodecError::AddressLengthVarint, Vec::new()));
    assert_eq!(
        left(&with(&[0x80, 1, 2])),
        (CodecError::AddressLengthVarint, vec![1, 2])
    );
    assert_eq!(
        left(&with(&[5, b'a'])),
        (CodecError::AddressExceedsPacket(5, 1), vec![b'a'])
    );
    assert_eq!(
        left(&with(&[1, b'a', b'x'])),
        (CodecError::AddressFormat, Vec::new())
    );

    let left = |bytes: &[u8]| {
        let mut buf = BytesMut::from(bytes);
        let error = Hy2TcpCodec.decode(&mut buf).unwrap_err();
        (error, buf.to_vec())
    };
    assert_eq!(left(&[0]), (CodecError::MessageLength, Vec::new()));
    assert_eq!(left(&[0, 0x40]), (CodecError::MessageLength, Vec::new()));
    assert_eq!(left(&[0, 3, b'a']), (CodecError::UnexpectedEof, vec![b'a']));
    assert_eq!(
        left(&[0, 1, b'a', 4, 9]),
        (CodecError::UnexpectedEof, vec![9])
    );
    assert_eq!(
        left(&[0, 2, b'a', 0xff, 0]),
        (CodecError::MessageUtf8(1, Some(1)), vec![0])
    );
}

#[test]
fn faults_of_a_message_are_told_as_the_decoder_tells_them() {
    for text in [&b"a\xff"[..], b"\xe2\x82", b"abc\xe2\x28\xa1", b"\xf0\x90\x80z", b"ok\xc3"] {
        let mut buf = BytesMut::new();
        buf.extend_from_slice(&[0, text.len() as u8]);
        buf.extend_from_slice(text);
        buf.extend_from_slice(&[0]);
        let error = Hy2TcpCodec.decode(&mut buf).unwrap_err();
        assert_eq!(error.kind(), ErrorKind::InvalidData);
        assert_eq!(
            error.message(),
            String::from_utf8(text.to_vec()).unwrap_err().to_string()
        );
    }
}

#[test]
fn repeated_and_inconsistent_fragments_are_discarded() {
    let packet = |frag_id, frag_count, port, data: &[u8]| HysUdpPacket {
        session_id: 1,
        pkt_id: 1,
        frag_id,
        frag_count,
        addr: loopback(port),
        data: data.to_vec(),
    };
    let mut defragger = Defragger::new(4, 8, 100);
    assert!(defragger.feed_at(packet(0, 3, 53, b"a"), 0).is_none());
    assert!(defragger.feed_at(packet(0, 3, 53, b"again"), 1).is_none());
    assert!(defragger.feed_at(packet(1, 2, 53, b"count"), 2).is_none());
    assert!(defragger.feed_at(packet(1, 3, 54, b"place"), 3).is_none());
    assert!(defragger.feed_at(packet(2, 3, 53, b"c"), 4).is_none());
    let whole = defragger.feed_at(packet(1, 3, 53, b"b"), 5).unwrap();
    assert_eq!(whole.data, b"abc");
}
