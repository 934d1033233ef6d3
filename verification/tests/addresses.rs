use clash_inbound::net::addr::{IpAddr, SocketAddr, SocksAddr};
use clash_inbound::net::parse::{parse_ip, parse_socket_addr};
use clash_inbound::text::trim;

#[test]
fn addresses_of_version_four_are_read_and_written() {
    assert_eq!(parse_ip("192.0.2.10"), Some(IpAddr::V4(192, 0, 2, 10)));
    assert_eq!(parse_ip("0.0.0.0"), Some(IpAddr::V4(0, 0, 0, 0)));
    assert_eq!(parse_ip("256.0.0.1"), None);
    assert_eq!(parse_ip("1.2.3"), None);
    assert_eq!(parse_ip("01.2.3.4"), None);
    assert_eq!(parse_ip(" 1.2.3.4"), None);
    assert_eq!(IpAddr::V4(192, 0, 2, 10).text(), "192.0.2.10");
    assert!(IpAddr::V4(127, 9, 9, 9).is_loopback());
    assert!(IpAddr::V4(0, 0, 0, 0).is_unspecified());
}

#[test]
fn addresses_of_version_six_are_read_and_written() {
    assert_eq!(parse_ip("::"), Some(IpAddr::V6(0, 0, 0, 0, 0, 0, 0, 0)));
    assert_eq!(parse_ip("::1"), Some(IpAddr::V6(0, 0, 0, 0, 0, 0, 0, 1)));
    assert_eq!(
        parse_ip("2001:db8::ff00:42:8329"),
        Some(IpAddr::V6(0x2001, 0xdb8, 0, 0, 0, 0xff00, 0x42, 0x8329))
    );
    assert_eq!(
        parse_ip("::ffff:192.0.2.1"),
        Some(IpAddr::V6(0, 0, 0, 0, 0, 0xffff, 0xc000, 0x0201))
    );
    assert_eq!(parse_ip("1::2::3"), None);
    assert_eq!(parse_ip("12345::"), None);
    assert_eq!(
        IpAddr::V6(0x2001, 0xdb8, 0, 0, 1, 0, 0, 1).text(),
        "2001:db8::1:0:0:1"
    );
    assert_eq!(
        IpAddr::V6(0, 0, 0, 0, 0, 0xffff, 0xc000, 0x0201).text(),
        "::ffff:192.0.2.1"
    );
    assert_eq!(IpAddr::V6(1, 0, 2, 0, 3, 0, 4, 0).text(), "1:0:2:0:3:0:4:0");
    assert!(IpAddr::V6(0, 0, 0, 0, 0, 0, 0, 1).is_loopback());
}

#[test]
fn addresses_come_back_as_they_were_written() {
    let mut seed: u64 = 7;
    for round in 0..2000u32 {
        let mut groups = [0u16; 8];
        for group in groups.iter_mut() {
            seed = seed
                .wrapping_mul(6364136223846793005)
                .wrapping_add(1442695040888963407);
            *group = if (seed >> 40) % 3 == 0 { (seed >> 48) as u16 } else { 0 };
        }
        if round % 5 == 0 {
            groups[..6].copy_from_slice(&[0, 0, 0, 0, 0, 0xffff]);
        }
        let [a, b, c, d, e, f, g, h] = groups;
        let own = IpAddr::V6(a, b, c, d, e, f, g, h);
        let text = own.text();
        assert_eq!(parse_ip(&text), Some(own));
        let sock = SocketAddr::new(own, (seed >> 16) as u16);
        assert_eq!(parse_socket_addr(&sock.text()), Some(sock));
    }
}

#[test]
fn sockets_are_read_and_written() {
    let addr = SocketAddr::new(IpAddr::V4(127, 0, 0, 1), 60178);
    assert_eq!(parse_socket_addr("127.0.0.1:60178"), Some(addr));
    assert_eq!(addr.text(), "127.0.0.1:60178");
    let addr = SocketAddr::new(IpAddr::V6(0, 0, 0, 0, 0, 0, 0, 1), 80);
    assert_eq!(parse_socket_addr("[::1]:80"), Some(addr));
    assert_eq!(addr.text(), "[::1]:80");
    let scoped = SocketAddr {
        ip: IpAddr::V6(0xfe80, 0, 0, 0, 0, 0, 0, 1),
        port: 9,
        flowinfo: 0,
        scope_id: 3,
    };
    assert_eq!(parse_socket_addr("[fe80::1%3]:9"), Some(scoped));
    assert_eq!(scoped.text(), "[fe80::1%3]:9");
    assert_eq!(parse_socket_addr("127.0.0.1"), None);
    assert_eq!(parse_socket_addr("127.0.0.1:65536"), None);
    assert_eq!(parse_socket_addr("example.com:80"), None);
}

#[test]
fn destinations_are_written() {
    assert_eq!(
        SocksAddr::Domain("example.com".to_owned(), 443).text(),
        "example.com:443"
    );
    assert_eq!(
        SocksAddr::Ip(SocketAddr::new(IpAddr::V6(0, 0, 0, 0, 0, 0, 0, 1), 443)).text(),
        "[::1]:443"
    );
}

#[test]
fn white_space_is_trimmed_as_in_unicode() {
    let text = " \t\u{2003}\u{3000} a b \u{85}\n";
    assert_eq!(trim(text), "a b");
    assert_eq!(trim(text), text.trim());
    assert_eq!(trim("\u{200b}x"), "\u{200b}x");
}
