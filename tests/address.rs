use cf_ddns::address::{ip_to_string, is_private_ip, IpAddr, Ipv4Addr, Ipv6Addr};
use cf_ddns::ip::{get_public_ipaddrs, IpCache};

fn v4(a: u8, b: u8, c: u8, d: u8) -> IpAddr {
    IpAddr::V4(Ipv4Addr(a, b, c, d))
}

fn v6(g: [u16; 8]) -> IpAddr {
    IpAddr::V6(Ipv6Addr(g[0], g[1], g[2], g[3], g[4], g[5], g[6], g[7]))
}

#[test]
fn text_form_of_many_addresses() {
    let samples: Vec<(IpAddr, &str)> = vec![
        (v4(0, 0, 0, 0), "0.0.0.0"),
        (v4(8, 8, 8, 8), "8.8.8.8"),
        (v4(192, 168, 2, 1), "192.168.2.1"),
        (v4(255, 255, 255, 255), "255.255.255.255"),
        (v4(10, 0, 100, 9), "10.0.100.9"),
        (v6([0, 0, 0, 0, 0, 0, 0, 0]), "::"),
        (v6([0, 0, 0, 0, 0, 0, 0, 1]), "::1"),
        (v6([1, 0, 0, 0, 0, 0, 0, 0]), "1::"),
        (v6([0x2409, 0x8a44, 0x987b, 0x36b0, 0xa8e9, 0x2fff, 0xfe00, 0x38]), "2409:8a44:987b:36b0:a8e9:2fff:fe00:38"),
        (v6([0xfe80, 0, 0, 0, 0, 0, 0, 1]), "fe80::1"),
        (v6([1, 0, 2, 0, 3, 0, 4, 0]), "1:0:2:0:3:0:4:0"),
        (v6([0, 1, 0, 0, 0, 0, 0, 0]), "0:1::"),
        (v6([0, 0, 0, 0, 0, 0xffff, 0, 1]), "::ffff:0.0.0.1"),
        (v6([0xffff; 8]), "ffff:ffff:ffff:ffff:ffff:ffff:ffff:ffff"),
        (v6([0x2001, 0xdb8, 0, 0, 0, 0xff00, 0x42, 0x8329]), "2001:db8::ff00:42:8329"),
        (v6([0, 0, 0, 0, 0, 0, 0xc000, 0x0280]), "::c000:280"),
    ];
    for (ip, text) in samples {
        assert_eq!(ip_to_string(&ip), text);
    }
}

fn parse(s: &str) -> IpAddr {
    if s.contains(':') {
        let (head, tail) = match s.find("::") {
            Some(k) => (&s[..k], &s[k + 2..]),
            None => (s, ""),
        };
        let groups = |t: &str| -> Vec<u16> {
            if t.is_empty() {
                vec![]
            } else {
                t.split(':').map(|g| u16::from_str_radix(g, 16).unwrap()).collect()
            }
        };
        let h = groups(head);
        let t = groups(tail);
        let mut g = h.clone();
        g.resize(8 - t.len(), 0);
        g.extend(t);
        v6([g[0], g[1], g[2], g[3], g[4], g[5], g[6], g[7]])
    } else {
        let o: Vec<u8> = s.split('.').map(|x| x.parse().unwrap()).collect();
        v4(o[0], o[1], o[2], o[3])
    }
}

#[test]
fn text_form_exact_values() {
    assert_eq!(ip_to_string(&IpAddr::V4(Ipv4Addr(203, 0, 113, 9))), "203.0.113.9");
    assert_eq!(ip_to_string(&IpAddr::V6(Ipv6Addr(0x2400, 0xcb00, 0, 0, 0, 0, 0, 1))), "2400:cb00::1");
    assert_eq!(ip_to_string(&IpAddr::V6(Ipv6Addr(1, 0, 0, 2, 0, 0, 0, 3))), "1:0:0:2::3");
    assert_eq!(ip_to_string(&IpAddr::V6(Ipv6Addr(1, 0, 0, 2, 0, 0, 3, 4))), "1::2:0:0:3:4");
    assert_eq!(ip_to_string(&IpAddr::V6(Ipv6Addr(0, 0, 0, 0, 0, 0xffff, 0xc000, 0x0280))), "::ffff:192.0.2.128");
}

#[test]
fn private_addresses_are_excluded() {
    for s in ["127.0.0.1", "192.168.1.1", "10.0.0.5", "::1", "fe80::1"] {
        assert!(is_private_ip(&parse(s)), "{}", s);
    }
    for s in ["8.8.8.8", "2400:cb00::1"] {
        assert!(!is_private_ip(&parse(s)), "{}", s);
    }
}

#[test]
fn range_edges() {
    assert!(is_private_ip(&parse("0.0.0.0")));
    assert!(is_private_ip(&parse("100.64.0.0")));
    assert!(is_private_ip(&parse("100.127.255.255")));
    assert!(!is_private_ip(&parse("100.128.0.0")));
    assert!(!is_private_ip(&parse("100.63.255.255")));
    assert!(is_private_ip(&parse("172.31.255.255")));
    assert!(!is_private_ip(&parse("172.32.0.0")));
    assert!(is_private_ip(&parse("198.19.255.255")));
    assert!(!is_private_ip(&parse("198.20.0.0")));
    assert!(is_private_ip(&parse("224.0.0.1")));
    assert!(is_private_ip(&parse("255.255.255.255")));
    assert!(!is_private_ip(&parse("223.255.255.255")));
    assert!(is_private_ip(&parse("fc00::1")));
    assert!(is_private_ip(&parse("fdff:ffff::1")));
    assert!(!is_private_ip(&parse("fe00::1")));
    assert!(is_private_ip(&parse("febf::1")));
    assert!(!is_private_ip(&parse("fec0::1")));
    assert!(is_private_ip(&parse("ff02::1")));
    assert!(!is_private_ip(&parse("::2")));
    assert!(!is_private_ip(&parse("::")));
}

#[test]
fn public_filter_keeps_order() {
    let all = vec![
        parse("127.0.0.1"),
        parse("8.8.8.8"),
        parse("192.168.1.1"),
        parse("2400:cb00::1"),
        parse("fe80::1"),
    ];
    assert_eq!(get_public_ipaddrs(&all), vec![parse("8.8.8.8"), parse("2400:cb00::1")]);
    assert_eq!(IpCache::new(&all).0, vec![parse("8.8.8.8"), parse("2400:cb00::1")]);
}

#[test]
fn cache_text_one_address_per_line() {
    let cache = IpCache(vec![parse("8.8.8.8"), parse("2400:cb00::1")]);
    assert_eq!(cache.to_text(), "8.8.8.8\n2400:cb00::1");
    assert_eq!(IpCache(vec![]).to_text(), "");
}

#[test]
fn address_family() {
    assert!(parse("8.8.8.8").is_ipv4());
    assert!(!parse("8.8.8.8").is_ipv6());
    assert!(parse("::1").is_ipv6());
}

#[test]
fn public_filter_drops_duplicates() {
    let all = vec![
        parse("8.8.8.8"),
        parse("127.0.0.1"),
        parse("8.8.8.8"),
        parse("2400:cb00::1"),
        parse("2400:cb00::1"),
    ];
    assert_eq!(get_public_ipaddrs(&all), vec![parse("8.8.8.8"), parse("2400:cb00::1")]);
    assert!(get_public_ipaddrs(&vec![]).is_empty());
}
