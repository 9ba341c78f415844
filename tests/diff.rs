use cf_ddns::address::{IpAddr, Ipv4Addr, Ipv6Addr};
use cf_ddns::ip::{IpCache, IpDifference};

fn v4(a: u8, b: u8, c: u8, d: u8) -> IpAddr {
    IpAddr::V4(Ipv4Addr(a, b, c, d))
}

fn v6(last: u16) -> IpAddr {
    IpAddr::V6(Ipv6Addr(0x2400, 0xcb00, 0, 0, 0, 0, 0, last))
}

#[test]
fn diff_of_a_set_with_itself_is_empty() {
    let a = vec![v4(8, 8, 8, 8), v6(1), v4(1, 1, 1, 1)];
    assert!(IpCache(a.clone()).different(IpCache(a)).is_empty());
    assert!(IpCache(vec![]).different(IpCache(vec![])).is_empty());
}

#[test]
fn diff_order_independent_sets() {
    let a = vec![v4(8, 8, 8, 8), v6(1)];
    let b = vec![v6(1), v4(8, 8, 8, 8)];
    assert!(IpCache(a).different(IpCache(b)).is_empty());
}

#[test]
fn diff_disjoint_union() {
    let a = vec![v4(8, 8, 8, 8)];
    let b = vec![v6(1), v4(1, 1, 1, 1)];
    let mut union = a.clone();
    union.extend(b.iter().copied());
    let grow = IpCache(a.clone()).different(IpCache(union.clone()));
    assert_eq!(grow.len(), 2);
    for ip in &b {
        assert_eq!(grow.iter().filter(|d| **d == IpDifference::Add(*ip)).count(), 1);
    }
    let shrink = IpCache(union).different(IpCache(a));
    assert_eq!(shrink.len(), 2);
    for ip in &b {
        assert_eq!(shrink.iter().filter(|d| **d == IpDifference::Remove(*ip)).count(), 1);
    }
}

#[test]
fn diff_from_empty_adds_everything_once() {
    let current = vec![v4(8, 8, 8, 8), v4(8, 8, 8, 8), v6(1)];
    let d = IpCache(vec![]).different(IpCache(current));
    assert_eq!(d, vec![IpDifference::Add(v4(8, 8, 8, 8)), IpDifference::Add(v6(1))]);
}

#[test]
fn diff_adds_then_removes() {
    let d = IpCache(vec![v4(1, 1, 1, 1), v6(2)]).different(IpCache(vec![v6(2), v4(9, 9, 9, 9)]));
    assert_eq!(d, vec![IpDifference::Add(v4(9, 9, 9, 9)), IpDifference::Remove(v4(1, 1, 1, 1))]);
}

#[test]
fn test_get_ip_difference() {
    let first = IpCache(vec![]).different(IpCache(vec![v4(8, 8, 8, 8)]));
    let second = IpCache(vec![v4(8, 8, 8, 8)]).different(IpCache(vec![v4(8, 8, 8, 8)]));
    let third = IpCache(vec![v4(8, 8, 8, 8)]).different(IpCache(vec![v4(8, 8, 8, 8)]));
    assert_eq!(first, vec![IpDifference::Add(v4(8, 8, 8, 8))]);
    assert!(second.is_empty());
    assert!(third.is_empty());
}
