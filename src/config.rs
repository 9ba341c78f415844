use crate::address::IpAddr;
use crate::lemma_prefix_step;
use vstd::prelude::*;

verus! {

/// Runtime configuration: the device identifier used as ownership tag, the
/// provider credential, the poll interval in seconds and the zone rules.
#[derive(Debug, Clone, PartialEq, Hash, Default)]
pub struct Config {
    pub device: String,
    pub token: String,
    pub interval: u64,
    pub zones: Vec<ZoneConfig>,
}

/// The poll interval used when the configuration names none.
pub fn default_interval() -> (r: u64)
    ensures
        r == 60,
{
    60
}

/// A provider zone and the records that should track this host's addresses.
#[derive(Debug, Clone, PartialEq, Hash, Default)]
pub struct ZoneConfig {
    pub name: String,
    pub records: Vec<DnsRecordConfig>,
}

/// Which address family a record template applies to.
#[derive(Debug, Clone, Copy, PartialEq, Eq, Structural, Hash, Default)]
pub enum DnsType {
    #[default]
    All,
    V4,
    V6,
}

impl DnsType {
    pub open spec fn relates(self, ip: IpAddr) -> bool {
        match self {
            DnsType::All => true,
            DnsType::V4 => ip.is_v4(),
            DnsType::V6 => ip.is_v6(),
        }
    }

    /// `All` matches any address, `V4` only IPv4 and `V6` only IPv6.
    pub fn related(&self, ip: &IpAddr) -> (r: bool)
        ensures
            r == self.relates(*ip),
    {
        match self {
            DnsType::All => true,
            DnsType::V4 => ip.is_ipv4(),
            DnsType::V6 => ip.is_ipv6(),
        }
    }
}

/// A record template: the record's name, the family filter and the metadata
/// copied onto each record made from it.
#[derive(Debug, Clone, PartialEq, Hash, Default)]
pub struct DnsRecordConfig {
    pub name: String,
    pub dns_type: DnsType,
    pub comment: Option<String>,
    pub proxied: bool,
    pub tags: Vec<String>,
    pub ttl: Option<i64>,
}

// ---------------------------------------------------------------------------
// Configuration hash (FNV-1a over 64-bit words)
// ---------------------------------------------------------------------------

pub const FNV_OFFSET: u64 = 0xcbf2_9ce4_8422_2325;

pub const FNV_PRIME: u64 = 0x0100_0000_01b3;

pub open spec fn mix(h: u64, x: u64) -> u64 {
    (h ^ x).wrapping_mul(FNV_PRIME)
}

pub open spec fn mix_chars(h: u64, s: Seq<char>) -> u64
    decreases s.len(),
{
    if s.len() == 0 {
        h
    } else {
        mix(mix_chars(h, s.drop_last()), s.last() as u32 as u64)
    }
}

/// A string: its characters, then its length.
pub open spec fn mix_text(h: u64, s: Seq<char>) -> u64 {
    mix(mix_chars(h, s), s.len() as u64)
}

pub open spec fn mix_opt_text(h: u64, o: Option<String>) -> u64 {
    match o {
        Some(s) => mix_text(mix(h, 1), s@),
        None => mix(h, 0),
    }
}

pub open spec fn mix_texts_prefix(h: u64, v: Seq<String>) -> u64
    decreases v.len(),
{
    if v.len() == 0 {
        h
    } else {
        mix_text(mix_texts_prefix(h, v.drop_last()), v.last()@)
    }
}

pub open spec fn mix_texts(h: u64, v: Seq<String>) -> u64 {
    mix(mix_texts_prefix(h, v), v.len() as u64)
}

pub open spec fn dns_type_code(t: DnsType) -> u64 {
    match t {
        DnsType::All => 0,
        DnsType::V4 => 1,
        DnsType::V6 => 2,
    }
}

pub open spec fn mix_ttl(h: u64, ttl: Option<i64>) -> u64 {
    match ttl {
        Some(t) => mix(mix(h, 1), t as u64),
        None => mix(h, 0),
    }
}

pub open spec fn mix_record(h: u64, r: DnsRecordConfig) -> u64 {
    let h = mix_text(h, r.name@);
    let h = mix(h, dns_type_code(r.dns_type));
    let h = mix_opt_text(h, r.comment);
    let h = mix(h, if r.proxied { 1 } else { 0 });
    let h = mix_texts(h, r.tags@);
    mix_ttl(h, r.ttl)
}

pub open spec fn mix_records_prefix(h: u64, v: Seq<DnsRecordConfig>) -> u64
    decreases v.len(),
{
    if v.len() == 0 {
        h
    } else {
        mix_record(mix_records_prefix(h, v.drop_last()), v.last())
    }
}

pub open spec fn mix_zone(h: u64, z: ZoneConfig) -> u64 {
    let h = mix_text(h, z.name@);
    mix(mix_records_prefix(h, z.records@), z.records@.len() as u64)
}

pub open spec fn mix_zones_prefix(h: u64, v: Seq<ZoneConfig>) -> u64
    decreases v.len(),
{
    if v.len() == 0 {
        h
    } else {
        mix_zone(mix_zones_prefix(h, v.drop_last()), v.last())
    }
}

/// The hash of a whole configuration: every field, in order.
pub open spec fn config_hash(c: Config) -> u64 {
    let h = mix_text(FNV_OFFSET, c.device@);
    let h = mix_text(h, c.token@);
    let h = mix(h, c.interval);
    mix(mix_zones_prefix(h, c.zones@), c.zones@.len() as u64)
}

fn mix_exec(h: u64, x: u64) -> (r: u64)
    ensures
        r == mix(h, x),
{
    (h ^ x).wrapping_mul(FNV_PRIME)
}

fn mix_text_exec(h: u64, s: &String) -> (r: u64)
    ensures
        r == mix_text(h, s@),
{
    let t = s.as_str();
    let n = t.unicode_len();
    let mut acc = h;
    let mut i: usize = 0;
    while i < n
        invariant
            n == s@.len(),
            t@ == s@,
            i <= n,
            acc == mix_chars(h, s@.subrange(0, i as int)),
        decreases n - i,
    {
        let c = t.get_char(i);
        proof {
            lemma_prefix_step(s@, i as int);
        }
        acc = mix_exec(acc, c as u32 as u64);
        i = i + 1;
    }
    assert(s@.subrange(0, n as int) =~= s@);
    mix_exec(acc, n as u64)
}

fn mix_opt_text_exec(h: u64, o: &Option<String>) -> (r: u64)
    ensures
        r == mix_opt_text(h, *o),
{
    match o {
        Some(s) => mix_text_exec(mix_exec(h, 1), s),
        None => mix_exec(h, 0),
    }
}

fn mix_texts_exec(h: u64, v: &Vec<String>) -> (r: u64)
    ensures
        r == mix_texts(h, v@),
{
    let mut acc = h;
    let mut i: usize = 0;
    while i < v.len()
        invariant
            i <= v@.len(),
            acc == mix_texts_prefix(h, v@.subrange(0, i as int)),
        decreases v@.len() - i,
    {
        proof {
            lemma_prefix_step(v@, i as int);
        }
        acc = mix_text_exec(acc, &v[i]);
        i = i + 1;
    }
    assert(v@.subrange(0, i as int) =~= v@);
    mix_exec(acc, v.len() as u64)
}

fn mix_record_exec(h: u64, r: &DnsRecordConfig) -> (out: u64)
    ensures
        out == mix_record(h, *r),
{
    let h = mix_text_exec(h, &r.name);
    let code: u64 = match r.dns_type {
        DnsType::All => 0,
        DnsType::V4 => 1,
        DnsType::V6 => 2,
    };
    let h = mix_exec(h, code);
    let h = mix_opt_text_exec(h, &r.comment);
    let h = mix_exec(h, if r.proxied { 1 } else { 0 });
    let h = mix_texts_exec(h, &r.tags);
    match r.ttl {
        Some(t) => mix_exec(mix_exec(h, 1), t as u64),
        None => mix_exec(h, 0),
    }
}

fn mix_zone_exec(h: u64, z: &ZoneConfig) -> (r: u64)
    ensures
        r == mix_zone(h, *z),
{
    let h0 = mix_text_exec(h, &z.name);
    let mut acc = h0;
    let mut i: usize = 0;
    while i < z.records.len()
        invariant
            i <= z.records@.len(),
            acc == mix_records_prefix(h0, z.records@.subrange(0, i as int)),
        decreases z.records@.len() - i,
    {
        proof {
            lemma_prefix_step(z.records@, i as int);
        }
        acc = mix_record_exec(acc, &z.records[i]);
        i = i + 1;
    }
    assert(z.records@.subrange(0, i as int) =~= z.records@);
    mix_exec(acc, z.records.len() as u64)
}

impl Config {
    /// A hash over the whole configuration, which identifies a generation of
    /// it: the poll loop resynchronises when it changes.
    pub fn hash_code(&self) -> (r: u64)
        ensures
            r == config_hash(*self),
    {
        let h = mix_text_exec(FNV_OFFSET, &self.device);
        let h = mix_text_exec(h, &self.token);
        let h0 = mix_exec(h, self.interval);
        let mut acc = h0;
        let mut i: usize = 0;
        while i < self.zones.len()
            invariant
                i <= self.zones@.len(),
                acc == mix_zones_prefix(h0, self.zones@.subrange(0, i as int)),
            decreases self.zones@.len() - i,
        {
            proof {
                lemma_prefix_step(self.zones@, i as int);
            }
            acc = mix_zone_exec(acc, &self.zones[i]);
            i = i + 1;
        }
        assert(self.zones@.subrange(0, i as int) =~= self.zones@);
        mix_exec(acc, self.zones.len() as u64)
    }
}

} // verus!
