use cf_ddns::address::{IpAddr, Ipv4Addr, Ipv6Addr};
use cf_ddns::config::{default_interval, Config, DnsRecordConfig, DnsType, ZoneConfig};
use cf_ddns::{next_action, CycleAction};

fn sample() -> Config {
    Config {
        device: "dev".to_string(),
        token: "SECRET-REDACTED".to_string(),
        interval: 60,
        zones: vec![ZoneConfig {
            name: "zone1".to_string(),
            records: vec![DnsRecordConfig {
                name: "example.com".to_string(),
                dns_type: DnsType::V4,
                comment: Some("This is a comment".to_string()),
                proxied: true,
                tags: vec!["tag1".to_string(), "tag2".to_string()],
                ttl: Some(3600),
            }],
        }],
    }
}

#[test]
fn interval_default() {
    assert_eq!(default_interval(), 60);
}

#[test]
fn hash_is_stable_and_sees_edits() {
    let a = sample();
    assert_eq!(a.hash_code(), sample().hash_code());
    let mut b = sample();
    b.zones[0].records[0].ttl = Some(3601);
    assert_ne!(a.hash_code(), b.hash_code());
    let mut c = sample();
    c.zones[0].records[0].dns_type = DnsType::V6;
    assert_ne!(a.hash_code(), c.hash_code());
    let mut d = sample();
    d.device = "dev2".to_string();
    assert_ne!(a.hash_code(), d.hash_code());
    let mut e = sample();
    e.zones[0].records[0].tags = vec!["tag1tag2".to_string()];
    assert_ne!(a.hash_code(), e.hash_code());
}

#[test]
fn hash_of_empty_config() {
    // FNV-1a steps by hand: empty device, empty token, interval 0, no zones.
    let prime: u64 = 0x0100_0000_01b3;
    let mut h: u64 = 0xcbf2_9ce4_8422_2325;
    for x in [0u64, 0, 0, 0] {
        h = (h ^ x).wrapping_mul(prime);
    }
    assert_eq!(Config::default().hash_code(), h);
}

#[test]
fn family_filter() {
    let v4 = IpAddr::V4(Ipv4Addr(8, 8, 8, 8));
    let v6 = IpAddr::V6(Ipv6Addr(0x2400, 0xcb00, 0, 0, 0, 0, 0, 1));
    assert!(DnsType::All.related(&v4) && DnsType::All.related(&v6));
    assert!(DnsType::V4.related(&v4) && !DnsType::V4.related(&v6));
    assert!(!DnsType::V6.related(&v4) && DnsType::V6.related(&v6));
}

#[test]
fn cycle_decision() {
    assert_eq!(next_action(5, 5), CycleAction::Incremental);
    assert_eq!(next_action(5, 6), CycleAction::Resync);
}
