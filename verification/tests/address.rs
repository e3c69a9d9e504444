use proxyrs::address::{parse_address, IpAddress, SocketAddress};

fn socket_v4(octets: [u8; 4], port: u16) -> Option<SocketAddress> {
    Some(SocketAddress { ip: IpAddress::V4(octets), port })
}

fn socket_v6(groups: [u16; 8], port: u16) -> Option<SocketAddress> {
    Some(SocketAddress { ip: IpAddress::V6(groups), port })
}

#[test]
fn dotted_addresses_are_read() {
    assert_eq!(parse_address("1.2.3.4:80"), socket_v4([1, 2, 3, 4], 80));
    assert_eq!(parse_address("0.0.0.0:1"), socket_v4([0, 0, 0, 0], 1));
    assert_eq!(parse_address("255.255.255.255:65535"), socket_v4([255, 255, 255, 255], 65535));
    assert_eq!(parse_address("127.0.0.1:8080"), socket_v4([127, 0, 0, 1], 8080));
    assert_eq!(parse_address("10.20.30.40:00080"), socket_v4([10, 20, 30, 40], 80));
}

#[test]
fn malformed_dotted_addresses_are_refused() {
    for addr in ["", ":", "1.2.3.4", "1.2.3.4:", ":80", "1.2.3:80", "1.2.3.4.5:80", "1..3.4:80",
        "256.2.3.4:80", "1.2.3.1000:80", "01.2.3.4:80", "1.2.3.04:80", "1.2.3.4:80:90",
        "1.2.3.4:-1", "1.2.3.4:+80", "1.2.3.4: 80", " 1.2.3.4:80", "1.2.3.4:80 ", "1.2.3.4:8o",
        "a.b.c.d:80", "example.com:80", "localhost:80", "1.2.3.4:0", "1.2.3.4:000",
        "1.2.3.4:65536", "1.2.3.4:99999999999999999999999", "0x1.2.3.4:80", "1.2.3.4;80"]
    {
        assert_eq!(parse_address(addr), None);
    }
}

#[test]
fn bracketed_addresses_are_read() {
    assert_eq!(
        parse_address("[1:2:3:4:5:6:7:8]:80"),
        socket_v6([1, 2, 3, 4, 5, 6, 7, 8], 80)
    );
    assert_eq!(parse_address("[::]:80"), socket_v6([0; 8], 80));
    assert_eq!(parse_address("[::1]:80"), socket_v6([0, 0, 0, 0, 0, 0, 0, 1], 80));
    assert_eq!(parse_address("[1::]:80"), socket_v6([1, 0, 0, 0, 0, 0, 0, 0], 80));
    assert_eq!(
        parse_address("[2001:db8::ff00:42:8329]:443"),
        socket_v6([0x2001, 0xdb8, 0, 0, 0, 0xff00, 0x42, 0x8329], 443)
    );
    assert_eq!(
        parse_address("[ABCD:ef01:0:00:000:0000:1:FFFF]:1"),
        socket_v6([0xabcd, 0xef01, 0, 0, 0, 0, 1, 0xffff], 1)
    );
    assert_eq!(
        parse_address("[1:2:3:4:5:6:7::]:80"),
        socket_v6([1, 2, 3, 4, 5, 6, 7, 0], 80)
    );
    assert_eq!(
        parse_address("[::2:3:4:5:6:7:8]:80"),
        socket_v6([0, 2, 3, 4, 5, 6, 7, 8], 80)
    );
    assert_eq!(
        parse_address("[::ffff:1.2.3.4]:80"),
        socket_v6([0, 0, 0, 0, 0, 0xffff, 0x0102, 0x0304], 80)
    );
    assert_eq!(
        parse_address("[1:2:3:4:5:6:255.254.253.252]:80"),
        socket_v6([1, 2, 3, 4, 5, 6, 0xfffe, 0xfdfc], 80)
    );
    assert_eq!(
        parse_address("[::1.2.3.4]:80"),
        socket_v6([0, 0, 0, 0, 0, 0, 0x0102, 0x0304], 80)
    );
}

#[test]
fn malformed_bracketed_addresses_are_refused() {
    for addr in ["[]:80", "[:]:80", "[:::]:80", "[1:2:3:4:5:6:7]:80", "[1:2:3:4:5:6:7:8:9]:80",
        "[1::2::3]:80", "[1:2:3:4:5:6:7:8::]:80", "[::1:2:3:4:5:6:7:8]:80", "[12345::]:80",
        "[g::]:80", "[1:2:3:4:5:6:7:8]", "[1:2:3:4:5:6:7:8]:", "[1:2:3:4:5:6:7:8]80", "[::1]:0",
        "[::1:80", "::1]:80", "[1.2.3.4]:80", "[1.2.3.4::]:80", "[1.2.3.4::1]:80",
        "[1:2:3:4:5:6:7:1.2.3.4]:80", "[1:2:3:4:5:1.2.3.4:7:8]:80", "[::1.2.3]:80",
        "[::1.2.3.256]:80", "[1:2:3:4:5:6::1.2.3.4]:80", "[ ::1]:80", "[::1 ]:80", "[:1::]:80",
        "[1:::2]:80", "[::1%1]:80", "1:2:3:4:5:6:7:8:80", "[1:2:3:4:5:6:7:]:80"]
    {
        assert_eq!(parse_address(addr), None);
    }
}

#[test]
fn port_takes_leading_zeros_but_not_zero() {
    assert_eq!(parse_address("1.2.3.4:080"), socket_v4([1, 2, 3, 4], 80));
    assert_eq!(parse_address("1.2.3.4:0000000000000000000065535"), socket_v4([1, 2, 3, 4], 65535));
    assert_eq!(parse_address("[::1]:0443"), socket_v6([0, 0, 0, 0, 0, 0, 0, 1], 443));
    assert_eq!(parse_address("1.2.3.4:0"), None);
    assert_eq!(parse_address("1.2.3.4:00"), None);
}
