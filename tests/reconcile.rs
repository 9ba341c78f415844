use cf_ddns::address::{IpAddr, Ipv4Addr, Ipv6Addr};
use cf_ddns::apply_ip_differences;
use cf_ddns::cf_api::delete_dns::{DeleteResult, DeleteResultRoot};
use cf_ddns::cf_api::list_dns::{DnsRecordResult, ListDns};
use cf_ddns::cf_api::list_zones::{ListZones, Zone};
use cf_ddns::cf_api::{CfDnsRecord, DnsOperation, DnsOperationResponse, Message, ProviderError};
use cf_ddns::config::{Config, DnsRecordConfig, DnsType, ZoneConfig};
use cf_ddns::ip::{IpCache, IpDifference};
use cf_ddns::reconcile::{delete_old_dns_records, is_owned_by, ownership_tag_string, ZoneRecords};

fn ip4(a: u8, b: u8, c: u8, d: u8) -> IpAddr {
    IpAddr::V4(Ipv4Addr(a, b, c, d))
}

fn template(name: &str, dns_type: DnsType) -> DnsRecordConfig {
    DnsRecordConfig {
        name: name.to_string(),
        dns_type,
        comment: Some("home".to_string()),
        proxied: true,
        tags: vec!["t1".to_string()],
        ttl: Some(300),
    }
}

fn config(device: &str, zone: &str, records: Vec<DnsRecordConfig>) -> Config {
    Config {
        device: device.to_string(),
        token: "SECRET-REDACTED".to_string(),
        interval: 60,
        zones: vec![ZoneConfig { name: zone.to_string(), records }],
    }
}

fn zone(id: &str, name: &str) -> Zone {
    Zone { id: id.to_string(), name: name.to_string() }
}

fn remote(id: &str, content: &str, comment: Option<&str>) -> DnsRecordResult {
    DnsRecordResult {
        comment: comment.map(|c| c.to_string()),
        name: "home.example.com".to_string(),
        content: content.to_string(),
        type_field: "A".to_string(),
        id: id.to_string(),
    }
}

fn listed(zone_name: &str, records: Vec<DnsRecordResult>) -> ZoneRecords {
    let mut r = ZoneRecords::new();
    r.insert(zone_name.to_string(), records);
    r
}

fn delete(zone_id: &str, record_id: &str) -> DnsOperation {
    DnsOperation::Delete { zone_id: zone_id.to_string(), record_id: record_id.to_string() }
}

#[test]
fn test_dns_eq() {
    let dns_v4 = DnsRecordResult {
        name: "example.com".to_string(),
        content: "192.168.2.1".to_string(),
        type_field: "A".to_string(),
        ..Default::default()
    };
    assert!(dns_v4.matches_ip(&IpAddr::V4(Ipv4Addr(192, 168, 2, 1))));

    let dns_v6 = DnsRecordResult {
        name: "example.com".to_string(),
        content: "2409:8a44:987b:36b0:a8e9:2fff:fe00:38".to_string(),
        type_field: "AAAA".to_string(),
        ..Default::default()
    };
    let ip_v6 = IpAddr::V6(Ipv6Addr(0x2409, 0x8a44, 0x987b, 0x36b0, 0xa8e9, 0x2fff, 0xfe00, 0x38));
    assert!(dns_v6.matches_ip(&ip_v6));
    assert!(!dns_v4.matches_ip(&ip_v6));
}

#[test]
fn removal_deletes_only_owned_record() {
    let zones = vec![zone("z1", "example.com")];
    let records = listed("example.com", vec![remote("r1", "8.8.8.8", Some("[device-a] note"))]);
    let removed = IpDifference::Remove(ip4(8, 8, 8, 8));

    let mine = config("device-a", "example.com", vec![template("home", DnsType::V4)]);
    assert_eq!(removed.apply(&mine, &zones, &records), vec![delete("z1", "r1")]);

    let other = config("device-b", "example.com", vec![template("home", DnsType::V4)]);
    assert!(removed.apply(&other, &zones, &records).is_empty());
}

#[test]
fn removal_skips_untagged_and_unknown() {
    let zones = vec![zone("z1", "example.com")];
    let cfg = config("device-a", "example.com", vec![template("home", DnsType::All)]);
    let untagged = listed("example.com", vec![remote("r1", "8.8.8.8", None)]);
    let removed = IpDifference::Remove(ip4(8, 8, 8, 8));
    assert!(removed.apply(&cfg, &zones, &untagged).is_empty());
    let no_records = ZoneRecords::new();
    assert!(removed.apply(&cfg, &zones, &no_records).is_empty());
    let other_content = listed("example.com", vec![remote("r1", "1.1.1.1", Some("[device-a] x"))]);
    assert!(removed.apply(&cfg, &zones, &other_content).is_empty());
    let v6_only = config("device-a", "example.com", vec![template("home", DnsType::V6)]);
    let tagged = listed("example.com", vec![remote("r1", "8.8.8.8", Some("[device-a] x"))]);
    assert!(removed.apply(&v6_only, &zones, &tagged).is_empty());
}

#[test]
fn addition_creates_tagged_record() {
    let zones = vec![zone("z1", "example.com"), zone("z2", "other.org")];
    let no_records = ZoneRecords::new();
    let added = IpDifference::Add(ip4(203, 0, 113, 9));

    let cfg = config("dev", "example.com", vec![template("home", DnsType::V4)]);
    let ops = added.apply(&cfg, &zones, &no_records);
    assert_eq!(ops.len(), 1);
    match &ops[0] {
        DnsOperation::Create { zone_id, record } => {
            assert_eq!(zone_id, "z1");
            assert_eq!(record.type_field, "A");
            assert_eq!(record.content, "203.0.113.9");
            assert_eq!(record.name, "home");
            assert_eq!(record.comment.as_deref(), Some("[dev] home"));
            assert!(record.comment.as_ref().unwrap().starts_with("[dev] "));
            assert_eq!(record.proxied, Some(true));
            assert_eq!(record.tags, vec!["t1".to_string()]);
            assert_eq!(record.ttl, Some(300));
        }
        other => panic!("unexpected {:?}", other),
    }

    let v6 = config("dev", "example.com", vec![template("home", DnsType::V6)]);
    assert!(added.apply(&v6, &zones, &no_records).is_empty());
}

#[test]
fn addition_skips_missing_zone_and_keeps_duplicates() {
    let zones = vec![zone("z1", "example.com")];
    let no_records = ZoneRecords::new();
    let added = IpDifference::Add(IpAddr::V6(Ipv6Addr(0x2400, 0xcb00, 0, 0, 0, 0, 0, 1)));
    let missing = config("dev", "nowhere.net", vec![template("home", DnsType::All)]);
    assert!(added.apply(&missing, &zones, &no_records).is_empty());

    let mut twice = config("dev", "example.com", vec![template("a", DnsType::All), template("a", DnsType::V6)]);
    twice.zones[0].records[0].comment = None;
    let ops = added.apply(&twice, &zones, &no_records);
    assert_eq!(ops.len(), 2);
    match &ops[0] {
        DnsOperation::Create { record, .. } => {
            assert_eq!(record.type_field, "AAAA");
            assert_eq!(record.content, "2400:cb00::1");
            assert_eq!(record.comment.as_deref(), Some("[dev] "));
        }
        other => panic!("unexpected {:?}", other),
    }
}

#[test]
fn many_differences_in_order() {
    let zones = vec![zone("z1", "example.com")];
    let records = listed("example.com", vec![remote("r1", "1.1.1.1", Some("[dev] old"))]);
    let cfg = config("dev", "example.com", vec![template("home", DnsType::V4)]);
    let diffs = vec![IpDifference::Add(ip4(8, 8, 8, 8)), IpDifference::Remove(ip4(1, 1, 1, 1))];
    let ops = apply_ip_differences(&diffs, &cfg, &zones, &records);
    assert_eq!(ops.len(), 2);
    assert!(matches!(&ops[0], DnsOperation::Create { .. }));
    assert_eq!(ops[1], delete("z1", "r1"));
    assert!(apply_ip_differences(&vec![], &cfg, &zones, &records).is_empty());
}

#[test]
fn resync_cleanup_and_idempotence() {
    let public = vec![ip4(8, 8, 8, 8)];
    let cfg = config("dev", "example.com", vec![template("home", DnsType::V4)]);
    let z = zone("z1", "example.com");
    let zone_listing = vec![(
        z.clone(),
        vec![
            remote("r1", "1.1.1.1", Some("[dev] old")),
            remote("r2", "8.8.8.8", None),
            remote("r3", "9.9.9.9", Some("[other] keep")),
            remote("r4", "9.9.9.8", None),
            remote("r5", "8.8.8.8", Some("[other] clash")),
        ],
    )];
    let first = delete_old_dns_records(&cfg, &zone_listing, &public);
    assert_eq!(first, vec![delete("z1", "r1"), delete("z1", "r2"), delete("z1", "r5")]);

    let zones = vec![z.clone()];
    let no_records = ZoneRecords::new();
    let adds = IpCache(vec![]).different(IpCache(public.clone()));
    let created = apply_ip_differences(&adds, &cfg, &zones, &no_records);
    assert_eq!(created.len(), 1);

    // The provider after the first pass: survivors plus the created record.
    let mut after = vec![remote("r3", "9.9.9.9", Some("[other] keep")), remote("r4", "9.9.9.8", None)];
    if let DnsOperation::Create { record, .. } = &created[0] {
        after.push(DnsRecordResult {
            comment: record.comment.clone(),
            name: record.name.clone(),
            content: record.content.clone(),
            type_field: record.type_field.clone(),
            id: "n1".to_string(),
        });
    }
    let second = delete_old_dns_records(&cfg, &vec![(z, after.clone())], &public);
    assert_eq!(second, vec![delete("z1", "n1")]);
    let after_records = listed("example.com", after);
    assert_eq!(apply_ip_differences(&adds, &cfg, &zones, &after_records), created);
}

#[test]
fn ownership_tag_checks() {
    assert_eq!(ownership_tag_string(&"dev".to_string()), "[dev]");
    assert!(is_owned_by(&Some("[dev] x".to_string()), &"dev".to_string()));
    assert!(is_owned_by(&Some("[dev]".to_string()), &"dev".to_string()));
    assert!(!is_owned_by(&Some("[dev2] x".to_string()), &"dev".to_string()));
    assert!(!is_owned_by(&Some("x [dev]".to_string()), &"dev".to_string()));
    assert!(!is_owned_by(&None, &"dev".to_string()));
}

#[test]
fn create_record_from_template() {
    let r = CfDnsRecord::create(IpAddr::V6(Ipv6Addr(0x2400, 0xcb00, 0, 0, 0, 0, 0, 1)), &template("www", DnsType::All));
    assert_eq!(r.name, "www");
    assert_eq!(r.type_field, "AAAA");
    assert_eq!(r.content, "2400:cb00::1");
    assert_eq!(r.comment.as_deref(), Some("home"));
    assert_eq!(r.proxied, Some(true));
    assert_eq!(r.ttl, Some(300));
    let back = remote("r1", "8.8.8.8", Some("c")).into_cf_record();
    assert_eq!(back.content, "8.8.8.8");
    assert_eq!(back.proxied, None);
    assert!(back.tags.is_empty());
}

#[test]
fn provider_answers() {
    let msg = Message { code: 9109, message: "Invalid access token".to_string() };
    let failed = DnsOperationResponse { success: false, errors: vec![msg.clone()] };
    assert_eq!(failed.into_result(), Err(ProviderError::Rejected(vec![msg.clone()])));
    assert_eq!(DnsOperationResponse { success: true, errors: vec![] }.into_result(), Ok(()));

    let ok = DeleteResultRoot { result: DeleteResult { id: "r1".to_string() } };
    assert_eq!(ok.confirm(&"r1".to_string()), Ok(()));
    let wrong = DeleteResultRoot { result: DeleteResult { id: "r2".to_string() } };
    assert_eq!(
        wrong.confirm(&"r1".to_string()),
        Err(ProviderError::IdMismatch { expected: "r1".to_string(), confirmed: "r2".to_string() })
    );

    let zones = ListZones { errors: vec![], success: true, result: vec![zone("z1", "example.com")] };
    assert_eq!(zones.into_result(), Ok(vec![zone("z1", "example.com")]));
    let bad = ListZones { errors: vec![msg.clone()], success: false, result: vec![] };
    assert_eq!(bad.into_result(), Err(ProviderError::Rejected(vec![msg.clone()])));
    let dns = ListDns { errors: vec![], success: true, result: vec![remote("r1", "8.8.8.8", None)] };
    assert_eq!(dns.into_result(), Ok(vec![remote("r1", "8.8.8.8", None)]));
    let bad_dns = ListDns { errors: vec![msg.clone()], success: false, result: vec![] };
    assert_eq!(bad_dns.into_result(), Err(ProviderError::Rejected(vec![msg])));
}

#[test]
fn zone_records_keep_one_entry_per_name() {
    let mut r = ZoneRecords::new();
    r.insert("a.com".to_string(), vec![remote("r1", "8.8.8.8", None)]);
    r.insert("b.com".to_string(), vec![]);
    r.insert("a.com".to_string(), vec![remote("r2", "1.1.1.1", None)]);
    let e = r.entries();
    assert_eq!(e.len(), 2);
    assert_eq!(e[0].0, "a.com");
    assert_eq!(e[0].1, vec![remote("r2", "1.1.1.1", None)]);
    assert_eq!(e[1].0, "b.com");
}
