use clash_inbound::net::addr::{IpAddr, SocketAddr, SocksAddr};
use clash_inbound::net::packet::UdpPacket;
use clash_inbound::snell::cipher::{decrypt, encrypt, increase_nonce, make_cipher};
use clash_inbound::snell::error::{ErrorKind, SnellError};
use clash_inbound::snell::inbound::{
    InboundOptions, ReadEvent, RelayAction, RelayEvent, ServeStep, SnellInbound, SnellInboundUser,
    TcpRelay,
};
use clash_inbound::snell::profile::Profile;
use clash_inbound::snell::record::{header, parse_header, Mode, ReadStep, RecordReader};
use clash_inbound::snell::request::{
    authenticate_user, encode_udp_response, parse_request, parse_udp_request, remote_eof_reply,
    COMMAND_CONNECT_V2, COMMAND_PING,
};
use clash_inbound::snell::salt::shuffle;
use clash_inbound::snell::users::UserTable;
use clash_inbound::snell::writer::RecordWriter;

const PSK: &[u8] = b"!dubuxOpopop880@@";

#[test]
fn derives_reference_profile() {
    let profile = Profile::new(PSK);
    assert_eq!(profile.generator, 2);
    assert_eq!((profile.pad_min, profile.pad_max), (69, 730));
    assert_eq!((profile.pad_count, profile.pad_interval), (4, 4));
    assert_eq!((profile.prefix_min, profile.prefix_max), (61, 86));
    assert_eq!((profile.mix_mode, profile.mix_rounds), (1, 1));
    assert_eq!((profile.chunk_initial, profile.chunk_max), (1026, 11630));
    assert_eq!(profile.first_record_cap, 531);
    assert_eq!(profile.salt_block_len, 106);
    assert_eq!(profile.handshake_mix_stride, 174);
    assert_eq!(profile.handshake_mix_rounds, 4);
    assert_eq!(
        profile.chunk_buckets,
        [6386, 7265, 4501, 8084, 9937, 10197, 4179, 6716]
    );
}

#[test]
fn extracts_reference_salt_block() {
    let profile = Profile::new(PSK);
    let encoded = "a751d0230a44511324c6c764f8a380b7f718d890c878094b2739c9928993a98380aba7f0379363d2c9c2025428583872f47928b1a369b2b5ace8eb0105b149897798b969042892d5c2909846ded0d4f2725134703083f70288b1bc4717f3418882d0118aa5b357561962";
    let block = (0..encoded.len())
        .step_by(2)
        .map(|index| u8::from_str_radix(&encoded[index..index + 2], 16).unwrap())
        .collect::<Vec<_>>();
    assert_eq!(profile.extract_salt(&block), [0u8; 16]);
}

fn read_all(reader: &mut RecordReader, stream: &[u8]) -> (Vec<Vec<u8>>, bool, usize) {
    let mut records = Vec::new();
    let mut at = 0;
    loop {
        match reader.read_record(&stream[at..]).unwrap() {
            ReadStep::More => return (records, false, at),
            ReadStep::Record(payload, used) => {
                records.push(payload);
                at += used;
            }
            ReadStep::End(used) => return (records, true, at + used),
        }
    }
}

#[test]
fn round_trips_all_v6_record_modes() {
    let psk = PSK.to_vec();
    let payload = (0..100_000).map(|value| value as u8).collect::<Vec<_>>();

    for mode in [Mode::Default, Mode::Unshaped, Mode::UnsafeRaw] {
        let profile = if mode == Mode::Default {
            Some(Profile::new(&psk))
        } else {
            None
        };
        let mut writer = RecordWriter::new(mode, psk.clone(), profile);
        let mut reader = RecordReader::new(mode, psk.clone(), profile);

        let mut stream = writer.write_payload(&payload).unwrap();
        stream.extend_from_slice(&writer.write_eof().unwrap());
        let (records, ended, used) = read_all(&mut reader, &stream);
        assert!(ended);
        assert_eq!(used, stream.len());
        assert_eq!(records.concat(), payload, "mode {mode:?}");
    }
}

#[test]
fn shaped_udp_preserves_one_record_boundary() {
    let psk = PSK.to_vec();
    let profile = Profile::new(&psk);
    let first_limit = profile.first_record_cap;
    let mut writer = RecordWriter::new(Mode::Default, psk, Some(profile));

    let error = writer
        .write_packet(&vec![0u8; first_limit + 1])
        .unwrap_err();
    assert_eq!(error.kind(), ErrorKind::InvalidInput);
}

#[test]
fn parses_v6_multi_user_connect_request() {
    let mut record = vec![1, COMMAND_CONNECT_V2, 4];
    record.extend_from_slice(b"user");
    record.push(11);
    record.extend_from_slice(b"example.com");
    record.extend_from_slice(&443u16.to_be_bytes());
    record.extend_from_slice(b"early data");

    let (request, payload) = parse_request(record).unwrap();
    assert_eq!(request.client_id, b"user");
    assert_eq!(
        request.destination,
        Some(SocksAddr::Domain("example.com".to_owned(), 443))
    );
    assert_eq!(payload, b"early data");
}

#[test]
fn multi_user_ping_does_not_require_userkey() {
    let mut users = UserTable::new();
    assert!(users.insert(b"user-key".to_vec(), "user".to_owned()));
    assert_eq!(authenticate_user(&users, COMMAND_PING, &[]).unwrap(), None);
    assert!(authenticate_user(&users, COMMAND_CONNECT_V2, &[]).is_err());
}

#[test]
fn packets_keep_their_boundaries() {
    let psk = PSK.to_vec();
    let profile = Profile::new(&psk);
    let mut writer = RecordWriter::new(Mode::Default, psk.clone(), Some(profile));
    let mut reader = RecordReader::new(Mode::Default, psk, Some(profile));
    let mut stream = Vec::new();
    for packet in [&b"one"[..], &b"second packet"[..], &[7u8; 500][..]] {
        stream.extend_from_slice(&writer.write_packet(packet).unwrap());
    }
    let (records, ended, used) = read_all(&mut reader, &stream);
    assert!(!ended);
    assert_eq!(used, stream.len());
    assert_eq!(
        records,
        vec![b"one".to_vec(), b"second packet".to_vec(), vec![7u8; 500]]
    );
}

#[test]
fn streams_are_read_piece_by_piece() {
    let psk = PSK.to_vec();
    let mut writer = RecordWriter::new(Mode::Unshaped, psk.clone(), None);
    let mut reader = RecordReader::new(Mode::Unshaped, psk, None);
    let stream = writer.write_payload(b"hello").unwrap();
    for len in 0..stream.len() {
        assert!(matches!(
            reader.read_record(&stream[..len]).unwrap(),
            ReadStep::More
        ));
    }
    match reader.read_record(&stream).unwrap() {
        ReadStep::Record(payload, used) => {
            assert_eq!(payload, b"hello");
            assert_eq!(used, stream.len());
        }
        other => panic!("a record is complete: {other:?}"),
    }
}

#[test]
fn records_under_another_key_are_refused() {
    let mut writer = RecordWriter::new(Mode::Unshaped, PSK.to_vec(), None);
    let mut reader = RecordReader::new(Mode::Unshaped, b"another secret".to_vec(), None);
    let stream = writer.write_payload(b"hello").unwrap();
    match reader.read_record(&stream) {
        Err(error) => {
            assert!(matches!(error, SnellError::RecordAuthentication));
            assert_eq!(error.kind(), ErrorKind::InvalidData);
        }
        Ok(_) => panic!("the key is wrong"),
    }
}

#[test]
fn streams_of_one_writer_differ_by_their_salt() {
    let mut one = RecordWriter::new(Mode::Unshaped, PSK.to_vec(), None);
    let mut other = RecordWriter::new(Mode::Unshaped, PSK.to_vec(), None);
    assert_ne!(
        one.write_payload(b"hello").unwrap(),
        other.write_payload(b"hello").unwrap()
    );
}

#[test]
fn headers_come_back_as_they_were_written() {
    let bytes = header(300, 65535);
    assert_eq!(bytes, [4, 0, 0, 1, 44, 255, 255]);
    assert_eq!(parse_header(&bytes, true).unwrap(), (300, 65535));
    assert!(parse_header(&[4, 1, 0, 0, 0, 0, 0], true).is_err());
    assert_eq!(parse_header(&[4, 1, 0, 0, 0, 0, 5], false).unwrap(), (0, 5));
    assert!(matches!(
        parse_header(&[3, 0, 0, 0, 0, 0, 0], false),
        Err(SnellError::RecordVersion)
    ));
}

#[test]
fn modes_are_read() {
    assert_eq!(Mode::parse("default").unwrap(), Mode::Default);
    assert_eq!(Mode::parse("unshaped").unwrap(), Mode::Unshaped);
    assert_eq!(Mode::parse("unsafe-raw").unwrap(), Mode::UnsafeRaw);
    assert!(Mode::parse("other").is_err());
}

#[test]
fn salts_come_back_from_their_block() {
    let profile = Profile::new(PSK);
    let salt: [u8; 16] = *b"0123456789abcdef";
    let mut block = vec![0x5au8; profile.salt_block_len];
    profile.write_salt(&salt, &mut block);
    assert_eq!(profile.extract_salt(&block), salt);
}

#[test]
fn mixing_twice_changes_nothing() {
    let profile = Profile::new(PSK);
    for sequence in 0..6u32 {
        let mut padding: Vec<u8> = (0..90u8).collect();
        let mut body: Vec<u8> = (0..200u8).rev().collect();
        profile.mix_payload(sequence, &mut padding, &mut body);
        profile.mix_payload(sequence, &mut padding, &mut body);
        assert_eq!(padding, (0..90u8).collect::<Vec<u8>>());
        assert_eq!(body, (0..200u8).rev().collect::<Vec<u8>>());
    }
}

#[test]
fn ciphers_open_what_they_sealed() {
    let key = make_cipher(PSK, &[9u8; 16]).unwrap();
    assert_ne!(key, make_cipher(PSK, &[8u8; 16]).unwrap());
    let mut nonce = [0u8; 12];
    let sealed = encrypt(&key, &mut nonce, b"aad", b"message");
    assert_eq!(sealed.len(), 7 + 16);
    assert_eq!(nonce, [1, 0, 0, 0, 0, 0, 0, 0, 0, 0, 0, 0]);
    let mut nonce = [0u8; 12];
    assert_eq!(decrypt(&key, &mut nonce, b"aad", &sealed).unwrap(), b"message");
    let mut nonce = [0u8; 12];
    assert!(decrypt(&key, &mut nonce, b"other", &sealed).is_err());
}

#[test]
fn nonces_count_up_with_carry() {
    let mut nonce = [255u8, 255, 3, 0, 0, 0, 0, 0, 0, 0, 0, 0];
    increase_nonce(&mut nonce);
    assert_eq!(nonce, [0, 0, 4, 0, 0, 0, 0, 0, 0, 0, 0, 0]);
    let mut nonce = [255u8; 12];
    increase_nonce(&mut nonce);
    assert_eq!(nonce, [0u8; 12]);
}

#[test]
fn malformed_requests_are_named() {
    assert!(matches!(
        parse_request(vec![2, 0, 0]),
        Err(SnellError::RequestVersion)
    ));
    assert!(matches!(
        parse_request(vec![1, 9, 0]),
        Err(SnellError::UnsupportedCommand(9))
    ));
    assert!(matches!(
        parse_request(vec![1, 1, 4, b'u']),
        Err(SnellError::TruncatedClientId)
    ));
    assert!(matches!(
        parse_request(vec![1, 1, 0, 2, 0xff, 0xfe, 0, 80]),
        Err(SnellError::DestinationUtf8)
    ));
}

#[test]
fn literal_hosts_become_addresses() {
    let mut record = vec![1, 1, 0, 9];
    record.extend_from_slice(b"127.0.0.1");
    record.extend_from_slice(&[0, 80]);
    let (request, payload) = parse_request(record).unwrap();
    assert_eq!(
        request.destination,
        Some(SocksAddr::Ip(SocketAddr::new(IpAddr::V4(127, 0, 0, 1), 80)))
    );
    assert!(payload.is_empty());
}

#[test]
fn datagrams_are_read_and_answered() {
    let source = SocketAddr::new(IpAddr::V4(192, 0, 2, 1), 4000);
    let mut data = vec![1, 11];
    data.extend_from_slice(b"example.com");
    data.extend_from_slice(&[0, 53]);
    data.extend_from_slice(b"query");
    let packet = parse_udp_request(data, source, Some("alice".to_owned())).unwrap();
    assert_eq!(packet.data, b"query");
    assert_eq!(packet.src_addr, SocksAddr::Ip(source));
    assert_eq!(packet.dst_addr, SocksAddr::Domain("example.com".to_owned(), 53));
    assert_eq!(packet.inbound_user.as_deref(), Some("alice"));

    let reply = encode_udp_response(UdpPacket {
        data: b"answer".to_vec(),
        src_addr: SocksAddr::Ip(SocketAddr::new(IpAddr::V4(8, 8, 8, 8), 53)),
        dst_addr: SocksAddr::Ip(source),
        inbound_user: None,
    })
    .unwrap();
    assert_eq!(reply, [&[4u8, 8, 8, 8, 8, 0, 53][..], b"answer"].concat());

    assert!(matches!(
        encode_udp_response(UdpPacket {
            data: Vec::new(),
            src_addr: SocksAddr::Domain("example.com".to_owned(), 53),
            dst_addr: SocksAddr::Ip(source),
            inbound_user: None,
        }),
        Err(SnellError::UdpResponseSource)
    ));
    assert!(matches!(
        parse_udp_request(vec![2], source, None),
        Err(SnellError::UdpCommand)
    ));
}

fn options(mode: &str, users: Vec<SnellInboundUser>) -> InboundOptions {
    InboundOptions {
        addr: SocketAddr::new(IpAddr::V4(127, 0, 0, 1), 7000),
        version: 6,
        psk: "!dubuxOpopop880@@".to_owned(),
        users,
        mode: mode.to_owned(),
        allow_lan: false,
        fw_mark: None,
    }
}

fn user(name: &str, userkey: &str) -> SnellInboundUser {
    SnellInboundUser {
        name: name.to_owned(),
        userkey: userkey.to_owned(),
    }
}

#[test]
fn inbounds_are_set_up_from_valid_options() {
    let inbound = match SnellInbound::new(options("default", Vec::new())) {
        Ok(inbound) => inbound,
        Err(error) => panic!("{}", error.message()),
    };
    assert!(inbound.handle_tcp());
    assert!(!inbound.handle_udp());
    assert!(inbound.profile.is_some());

    let mut wrong = options("default", Vec::new());
    wrong.version = 5;
    assert!(matches!(
        SnellInbound::new(wrong),
        Err(SnellError::UnsupportedVersion)
    ));
    assert!(matches!(
        SnellInbound::new(options("fancy", Vec::new())),
        Err(SnellError::UnknownMode(_))
    ));
    assert!(matches!(
        SnellInbound::new(options("default", vec![user("a", "same-key"), user("b", "same-key")])),
        Err(SnellError::DuplicateUserkey)
    ));
}

#[test]
fn requests_are_served_by_their_command() {
    let inbound = match SnellInbound::new(options("default", Vec::new())) {
        Ok(inbound) => inbound,
        Err(error) => panic!("{}", error.message()),
    };
    match inbound.on_read(true, ReadEvent::Record(vec![1, 0, 0])) {
        Ok(ServeStep::Pong) => {}
        _ => panic!("a ping is answered"),
    }
    let mut record = vec![1, 5, 0, 11];
    record.extend_from_slice(b"example.com");
    record.extend_from_slice(&[1, 187]);
    match inbound.on_read(true, ReadEvent::Record(record)) {
        Ok(ServeStep::Connect {
            destination,
            reusable,
            ..
        }) => {
            assert_eq!(destination, SocksAddr::Domain("example.com".to_owned(), 443));
            assert!(reusable);
        }
        _ => panic!("a stream is relayed"),
    }
    assert!(matches!(
        inbound.on_read(true, ReadEvent::End),
        Err(SnellError::RequestIsEof)
    ));
    assert!(matches!(
        inbound.on_read(false, ReadEvent::Cut),
        Ok(ServeStep::Close)
    ));
    assert!(matches!(
        inbound.on_read(true, ReadEvent::Failed),
        Ok(ServeStep::Fail)
    ));
}

#[test]
fn clients_get_one_tunnel_reply() {
    let mut relay = TcpRelay::new(true);
    assert!(relay.is_open());
    match relay.on_event(RelayEvent::FromDispatch(b"first".to_vec())) {
        RelayAction::ToClient(bytes) => assert_eq!(bytes, b"\x00first"),
        _ => panic!("the reply goes to the client"),
    }
    match relay.on_event(RelayEvent::FromDispatch(b"second".to_vec())) {
        RelayAction::ToClient(bytes) => assert_eq!(bytes, b"second"),
        _ => panic!("the data go to the client"),
    }
    match relay.on_event(RelayEvent::FromClient(b"data".to_vec())) {
        RelayAction::ToDispatch(bytes) => assert_eq!(bytes, b"data"),
        _ => panic!("the data go on"),
    }
}

#[test]
fn ends_without_data_are_told() {
    let mut relay = TcpRelay::new(true);
    match relay.on_event(RelayEvent::DispatchEnd) {
        RelayAction::Abort(bytes) => assert_eq!(bytes, remote_eof_reply()),
        _ => panic!("the client is told"),
    }
}

const SECOND: i128 = 1_000_000_000;

fn profile_where(wanted: impl Fn(&Profile) -> bool) -> (Vec<u8>, Profile) {
    for number in 0..1000 {
        let psk = format!("key {number}").into_bytes();
        let profile = Profile::new(&psk);
        if wanted(&profile) {
            return (psk, profile);
        }
    }
    panic!("no such profile");
}

#[test]
fn limits_grow_with_every_record_and_fall_back_after_a_pause() {
    let (psk, profile) = profile_where(|profile| profile.chunk_policy == 0);
    let start = 1_700_000_000 * SECOND;
    let pause = (profile.idle_reset_secs as i128 + 1) * SECOND;
    let grown = |steps: usize| {
        (profile.chunk_initial + steps * profile.chunk_step).min(profile.chunk_max)
    };
    let mut writer = RecordWriter::new(Mode::Default, psk, Some(profile));
    let mut fits = |len: usize, now: i128| match writer.write_packet_at(&vec![1u8; len], now) {
        Ok(_) => true,
        Err(error) => {
            assert!(matches!(error, SnellError::PacketTooLarge));
            false
        }
    };

    assert!(fits(profile.first_record_cap, start));
    assert!(fits(grown(1), start + SECOND));
    assert!(!fits(grown(2) + 1, start + 2 * SECOND));
    assert!(fits(grown(3), start + 2 * SECOND));
    let later = start + 2 * SECOND + pause - 1;
    assert!(fits(grown(4), later));
    assert!(!fits(profile.chunk_initial + 1, later + pause));
    assert!(fits(grown(1), later + pause));
    assert!(!fits(profile.chunk_initial + 1, start));
}

#[test]
fn writers_remember_when_they_last_wrote() {
    let psk = PSK.to_vec();
    let profile = Profile::new(&psk);
    let mut writer = RecordWriter::new(Mode::Default, psk.clone(), Some(profile));
    assert_eq!(writer.last_write, None);
    let limit = writer.payload_limit_at(5 * SECOND);
    assert_eq!(limit, profile.first_record_cap);
    assert_eq!(writer.last_write, Some(5 * SECOND));
    assert_eq!(writer.chunk_size, profile.chunk_initial + profile.chunk_step);
    writer.write_payload(&[1; 40]).unwrap();
    let stamp = writer.last_write.unwrap();
    assert!(stamp > 1_700_000_000 * SECOND);
    writer.write_packet(&[1; 40]).unwrap();
    assert!(writer.last_write.unwrap() >= stamp);
    let stamp = writer.last_write;
    writer.write_eof().unwrap();
    assert_eq!(writer.last_write, stamp);

    let mut plain = RecordWriter::new(Mode::UnsafeRaw, psk, None);
    assert_eq!(plain.payload_limit_at(5 * SECOND), 0xffff);
    assert_eq!(plain.last_write, None);
}

#[test]
fn paddings_look_as_their_generator_says() {
    for generator in 0..4 {
        let (_, profile) = profile_where(|profile| profile.generator == generator);
        for sequence in 0..50 {
            let mut bytes = vec![0u8; 200];
            profile.fill_padding(sequence, &mut bytes);
            let mut other = vec![0xffu8; 200];
            profile.fill_padding(sequence, &mut other);
            assert_eq!(bytes, other);
            profile.fill_padding(sequence, &mut []);
            let period = profile.generator_weights[5];
            for (i, byte) in bytes.iter().enumerate() {
                match generator {
                    0 => {
                        assert_eq!(byte.count_ones(), bytes[0].count_ones());
                        assert!((2..=6).contains(&byte.count_ones()));
                    }
                    1 => assert!((0x20..=0x7e).contains(byte) || *byte >= 0x80),
                    2 => assert!(byte & 0x0f <= 9),
                    _ => {
                        if i % period == period - 3 || i % period == period - 2 {
                            assert!(byte.is_ascii_digit());
                        }
                    }
                }
            }
        }
    }
}

#[test]
fn shuffles_lose_no_position() {
    for length in [0, 1, 2, 17, 144] {
        for rounds in 0..=4 {
            let mut positions = shuffle(0x0123_4567_89ab_cdef, rounds, length);
            positions.sort();
            assert_eq!(positions, (0..length).collect::<Vec<_>>());
        }
        assert_eq!(shuffle(42, 0, length), shuffle(42, 1, length));
    }
    assert_ne!(shuffle(42, 1, 144), shuffle(43, 1, 144));
}

#[test]
fn readers_stand_where_reading_broke_off() {
    let psk = PSK.to_vec();
    let mut writer = RecordWriter::new(Mode::Unshaped, psk.clone(), None);
    let stream = writer.write_payload(b"payload").unwrap();

    let mut broken = stream.clone();
    *broken.last_mut().unwrap() ^= 1;
    let mut reader = RecordReader::new(Mode::Unshaped, psk.clone(), None);
    assert!(reader.read_record(&broken).is_err());
    assert!(reader.key.is_some());
    assert_eq!(reader.nonce, [1, 0, 0, 0, 0, 0, 0, 0, 0, 0, 0, 0]);

    let mut broken = stream;
    broken[16] ^= 1;
    let mut reader = RecordReader::new(Mode::Unshaped, psk.clone(), None);
    assert!(reader.read_record(&broken).is_err());
    assert!(reader.key.is_some());
    assert_eq!(reader.nonce, [0; 12]);

    let profile = Profile::new(&psk);
    let mut writer = RecordWriter::new(Mode::Default, psk.clone(), Some(profile));
    let mut stream = writer.write_payload(b"payload").unwrap();
    *stream.last_mut().unwrap() ^= 1;
    let mut reader = RecordReader::new(Mode::Default, psk, Some(profile));
    assert!(reader.read_record(&stream).is_err());
    assert_eq!(reader.nonce[0], 1);
    assert_eq!(reader.sequence, 1);
}
