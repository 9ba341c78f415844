use crate::address::{ip_text, ip_to_string, IpAddr};
use crate::cf_api::list_dns::DnsRecordResult;
use crate::cf_api::list_zones::Zone;
use crate::cf_api::{operations_view, record_for, CfDnsRecord, DnsOperation, OperationView, RecordView};
use crate::config::{Config, DnsRecordConfig, ZoneConfig};
use crate::ip::IpDifference;
use crate::text::starts_with;
use crate::lemma_prefix_step;
use vstd::prelude::*;

verus! {

/// The first element of `s` that satisfies `p`.
pub open spec fn first_match<T>(s: Seq<T>, p: spec_fn(T) -> bool) -> Option<T>
    decreases s.len(),
{
    if s.len() == 0 {
        None
    } else if p(s[0]) {
        Some(s[0])
    } else {
        first_match(s.subrange(1, s.len() as int), p)
    }
}

proof fn lemma_first_match<T>(s: Seq<T>, p: spec_fn(T) -> bool, i: int)
    requires
        0 <= i <= s.len(),
        forall|j: int| 0 <= j < i ==> !p(#[trigger] s[j]),
    ensures
        i < s.len() && p(s[i]) ==> first_match(s, p) == Some(s[i]),
        i == s.len() ==> first_match(s, p) is None,
    decreases i,
{
    if i > 0 {
        let t = s.subrange(1, s.len() as int);
        assert forall|j: int| 0 <= j < i - 1 implies !p(#[trigger] t[j]) by {
            assert(t[j] == s[j + 1]);
        }
        lemma_first_match(t, p, i - 1);
        assert(!p(s[0]));
        if i < s.len() {
            assert(t[i - 1] == s[i]);
        }
    }
}

/// The `[<device>]` prefix that marks a record as made by this device.
pub open spec fn ownership_tag(device: Seq<char>) -> Seq<char> {
    seq!['['] + device + seq![']']
}

/// A record belongs to `device` when its comment starts with the device's tag.
pub open spec fn owned_by(comment: Option<String>, device: Seq<char>) -> bool {
    comment is Some && ownership_tag(device).is_prefix_of(comment->0@)
}

/// The comment of a record made by `device`: its tag, a space, then the
/// template's comment.
pub open spec fn tagged_comment(device: Seq<char>, comment: Option<String>) -> Seq<char> {
    ownership_tag(device) + seq![' '] + match comment {
        Some(c) => c@,
        None => Seq::<char>::empty(),
    }
}

/// The record that `device` creates for `ip` from the template `c`.
pub open spec fn created_record(ip: IpAddr, device: Seq<char>, c: DnsRecordConfig) -> RecordView {
    let r = record_for(ip, c);
    RecordView {
        name: r.name,
        type_field: r.type_field,
        content: r.content,
        comment: Some(tagged_comment(device, c.comment)),
        proxied: r.proxied,
        tags: r.tags,
        ttl: r.ttl,
    }
}

/// The provider zone of the given name, the first one listed.
pub open spec fn find_zone(zones: Seq<Zone>, name: Seq<char>) -> Option<Zone> {
    first_match(zones, |z: Zone| z.name@ == name)
}

/// The records listed for the zone of the given name.
pub open spec fn find_records(
    dns_records: Seq<(String, Vec<DnsRecordResult>)>,
    name: Seq<char>,
) -> Option<(String, Vec<DnsRecordResult>)> {
    first_match(dns_records, |e: (String, Vec<DnsRecordResult>)| e.0@ == name)
}

/// No two entries have the same zone name.
pub open spec fn unique_names(s: Seq<(String, Vec<DnsRecordResult>)>) -> bool {
    forall|a: int, b: int| 0 <= a < b < s.len() ==> #[trigger] s[a].0@ != #[trigger] s[b].0@
}

/// The records listed per provider zone, keyed by zone name: each name
/// appears at most once.
#[derive(Debug)]
pub struct ZoneRecords {
    entries: Vec<(String, Vec<DnsRecordResult>)>,
}

impl View for ZoneRecords {
    type V = Seq<(String, Vec<DnsRecordResult>)>;

    closed spec fn view(&self) -> Seq<(String, Vec<DnsRecordResult>)> {
        self.entries@
    }
}

impl ZoneRecords {
    #[verifier::type_invariant]
    spec fn names_unique(self) -> bool {
        unique_names(self.entries@)
    }

    /// No zone listed yet.
    pub fn new() -> (r: Self)
        ensures
            r@ == Seq::<(String, Vec<DnsRecordResult>)>::empty(),
    {
        ZoneRecords { entries: Vec::new() }
    }

    /// Sets the records of the zone `name`: an entry of that name is
    /// replaced in place, otherwise a new one is added at the end.
    pub fn insert(&mut self, name: String, records: Vec<DnsRecordResult>)
        ensures
            forall|k: int|
                0 <= k < old(self)@.len() && (#[trigger] old(self)@[k]).0@ == name@
                    ==> final(self)@ == old(self)@.update(k, (name, records)),
            (forall|k: int| 0 <= k < old(self)@.len() ==> (#[trigger] old(self)@[k]).0@ != name@)
                ==> final(self)@ == old(self)@.push((name, records)),
    {
        let mut taken = ZoneRecords::new();
        std::mem::swap(self, &mut taken);
        proof {
            use_type_invariant(&taken);
        }
        let mut entries = taken.entries;
        let ghost before = entries@;
        let mut i: usize = 0;
        while i < entries.len() && entries[i].0 != name
            invariant
                entries@ == before,
                i <= before.len(),
                forall|j: int| 0 <= j < i ==> (#[trigger] before[j]).0@ != name@,
            decreases before.len() - i,
        {
            i = i + 1;
        }
        if i < entries.len() {
            assert(before[i as int].0@ == name@);
            assert forall|k: int| 0 <= k < before.len() && (#[trigger] before[k]).0@ == name@ implies k
                == i as int by {
                if k < i {
                } else if k > i {
                    assert(before[i as int].0@ != before[k].0@);
                }
            }
            entries.set(i, (name, records));
            assert(unique_names(entries@)) by {
                assert forall|a: int, b: int| 0 <= a < b < entries@.len() implies #[trigger] entries@[a].0@
                    != #[trigger] entries@[b].0@ by {
                    if a != i as int && b != i as int {
                        assert(entries@[a] == before[a]);
                        assert(entries@[b] == before[b]);
                    } else if a == i as int {
                        assert(before[a].0@ != before[b].0@);
                    } else {
                        assert(before[a].0@ != before[b].0@);
                    }
                }
            }
        } else {
            entries.push((name, records));
            assert(unique_names(entries@)) by {
                assert forall|a: int, b: int| 0 <= a < b < entries@.len() implies #[trigger] entries@[a].0@
                    != #[trigger] entries@[b].0@ by {
                    assert(entries@[a] == before[a]);
                    if b < before.len() {
                        assert(entries@[b] == before[b]);
                    }
                }
            }
        }
        *self = ZoneRecords { entries };
    }

    /// The entries, in the order they were first inserted.
    pub fn entries(&self) -> (r: &Vec<(String, Vec<DnsRecordResult>)>)
        ensures
            r@ == self@,
            unique_names(r@),
    {
        proof {
            use_type_invariant(self);
        }
        &self.entries
    }
}

/// With unique names, the lookup by name finds the one entry of that name.
pub proof fn lemma_find_records_unique(
    s: Seq<(String, Vec<DnsRecordResult>)>,
    name: Seq<char>,
    k: int,
)
    requires
        unique_names(s),
        0 <= k < s.len(),
        s[k].0@ == name,
    ensures
        find_records(s, name) == Some(s[k]),
    decreases s.len(),
{
    if k > 0 {
        let t = s.subrange(1, s.len() as int);
        assert(s[0].0@ != s[k].0@);
        assert(t[k - 1] == s[k]);
        assert forall|a: int, b: int| 0 <= a < b < t.len() implies #[trigger] t[a].0@
            != #[trigger] t[b].0@ by {
            assert(t[a] == s[a + 1]);
            assert(t[b] == s[b + 1]);
        }
        lemma_find_records_unique(t, name, k - 1);
    }
}

/// The first record whose content is the given text.
pub open spec fn find_content(records: Seq<DnsRecordResult>, content: Seq<char>) -> Option<
    DnsRecordResult,
> {
    first_match(records, |r: DnsRecordResult| r.content@ == content)
}

/// Creations for `ip` from the templates `recs` of a zone rule whose provider
/// zone is `zone`.
pub open spec fn add_ops_for(
    ip: IpAddr,
    device: Seq<char>,
    zone: Option<Zone>,
    recs: Seq<DnsRecordConfig>,
) -> Seq<OperationView>
    decreases recs.len(),
{
    if recs.len() == 0 {
        seq![]
    } else {
        let prev = add_ops_for(ip, device, zone, recs.drop_last());
        let c = recs.last();
        if c.dns_type.relates(ip) && zone is Some {
            prev.push(
                OperationView::Create {
                    zone_id: zone->0.id@,
                    record: created_record(ip, device, c),
                },
            )
        } else {
            prev
        }
    }
}

/// Creations for `ip` over the zone rules `zcs`, in order.
pub open spec fn add_ops(
    ip: IpAddr,
    device: Seq<char>,
    zones: Seq<Zone>,
    zcs: Seq<ZoneConfig>,
) -> Seq<OperationView>
    decreases zcs.len(),
{
    if zcs.len() == 0 {
        seq![]
    } else {
        let zc = zcs.last();
        add_ops(ip, device, zones, zcs.drop_last()) + add_ops_for(
            ip,
            device,
            find_zone(zones, zc.name@),
            zc.records@,
        )
    }
}

/// The deletion, if any, that removing `ip` calls for in `zone`: the first
/// record of the zone holding the address, if it belongs to `device`.
pub open spec fn remove_op(
    ip: IpAddr,
    device: Seq<char>,
    zone: Zone,
    dns_records: Seq<(String, Vec<DnsRecordResult>)>,
) -> Option<OperationView> {
    match find_records(dns_records, zone.name@) {
        Some(e) => match find_content(e.1@, ip_text(ip)) {
            Some(r) => if owned_by(r.comment, device) {
                Some(OperationView::Delete { zone_id: zone.id@, record_id: r.id@ })
            } else {
                None
            },
            None => None,
        },
        None => None,
    }
}

/// Deletions for `ip` from the templates `recs` of a zone rule whose provider
/// zone is `zone`.
pub open spec fn remove_ops_for(
    ip: IpAddr,
    device: Seq<char>,
    zone: Option<Zone>,
    dns_records: Seq<(String, Vec<DnsRecordResult>)>,
    recs: Seq<DnsRecordConfig>,
) -> Seq<OperationView>
    decreases recs.len(),
{
    if recs.len() == 0 {
        seq![]
    } else {
        let prev = remove_ops_for(ip, device, zone, dns_records, recs.drop_last());
        if recs.last().dns_type.relates(ip) && zone is Some && remove_op(
            ip,
            device,
            zone->0,
            dns_records,
        ) is Some {
            prev.push(remove_op(ip, device, zone->0, dns_records)->0)
        } else {
            prev
        }
    }
}

/// Deletions for `ip` over the zone rules `zcs`, in order.
pub open spec fn remove_ops(
    ip: IpAddr,
    device: Seq<char>,
    zones: Seq<Zone>,
    dns_records: Seq<(String, Vec<DnsRecordResult>)>,
    zcs: Seq<ZoneConfig>,
) -> Seq<OperationView>
    decreases zcs.len(),
{
    if zcs.len() == 0 {
        seq![]
    } else {
        let zc = zcs.last();
        remove_ops(ip, device, zones, dns_records, zcs.drop_last()) + remove_ops_for(
            ip,
            device,
            find_zone(zones, zc.name@),
            dns_records,
            zc.records@,
        )
    }
}

/// The provider writes that one address change calls for.
pub open spec fn plan(
    d: IpDifference,
    config: Config,
    zones: Seq<Zone>,
    dns_records: Seq<(String, Vec<DnsRecordResult>)>,
) -> Seq<OperationView> {
    match d {
        IpDifference::Add(ip) => add_ops(ip, config.device@, zones, config.zones@),
        IpDifference::Remove(ip) => remove_ops(ip, config.device@, zones, dns_records, config.zones@),
    }
}

fn find_zone_index(zones: &Vec<Zone>, name: &String) -> (r: Option<usize>)
    ensures
        match r {
            Some(k) => k < zones@.len() && find_zone(zones@, name@) == Some(zones@[k as int]),
            None => find_zone(zones@, name@) is None,
        },
{
    let ghost p = |z: Zone| z.name@ == name@;
    let mut i: usize = 0;
    while i < zones.len()
        invariant
            i <= zones@.len(),
            p == (|z: Zone| z.name@ == name@),
            forall|j: int| 0 <= j < i ==> !p(#[trigger] zones@[j]),
        decreases zones@.len() - i,
    {
        if zones[i].name == *name {
            proof {
                lemma_first_match(zones@, p, i as int);
            }
            return Some(i);
        }
        i = i + 1;
    }
    proof {
        lemma_first_match(zones@, p, i as int);
    }
    None
}

fn find_records_index(dns_records: &Vec<(String, Vec<DnsRecordResult>)>, name: &String) -> (r:
    Option<usize>)
    ensures
        match r {
            Some(k) => k < dns_records@.len() && find_records(dns_records@, name@) == Some(
                dns_records@[k as int],
            ),
            None => find_records(dns_records@, name@) is None,
        },
{
    let ghost p = |e: (String, Vec<DnsRecordResult>)| e.0@ == name@;
    let mut i: usize = 0;
    while i < dns_records.len()
        invariant
            i <= dns_records@.len(),
            p == (|e: (String, Vec<DnsRecordResult>)| e.0@ == name@),
            forall|j: int| 0 <= j < i ==> !p(#[trigger] dns_records@[j]),
        decreases dns_records@.len() - i,
    {
        if dns_records[i].0 == *name {
            proof {
                lemma_first_match(dns_records@, p, i as int);
            }
            return Some(i);
        }
        i = i + 1;
    }
    proof {
        lemma_first_match(dns_records@, p, i as int);
    }
    None
}

fn find_content_index(records: &Vec<DnsRecordResult>, content: &String) -> (r: Option<usize>)
    ensures
        match r {
            Some(k) => k < records@.len() && find_content(records@, content@) == Some(
                records@[k as int],
            ),
            None => find_content(records@, content@) is None,
        },
{
    let ghost p = |r: DnsRecordResult| r.content@ == content@;
    let mut i: usize = 0;
    while i < records.len()
        invariant
            i <= records@.len(),
            p == (|r: DnsRecordResult| r.content@ == content@),
            forall|j: int| 0 <= j < i ==> !p(#[trigger] records@[j]),
        decreases records@.len() - i,
    {
        if records[i].content == *content {
            proof {
                lemma_first_match(records@, p, i as int);
            }
            return Some(i);
        }
        i = i + 1;
    }
    proof {
        lemma_first_match(records@, p, i as int);
    }
    None
}

/// The ownership tag `[<device>]`.
pub fn ownership_tag_string(device: &String) -> (r: String)
    ensures
        r@ == ownership_tag(device@),
{
    proof {
        reveal_strlit("[");
        reveal_strlit("]");
    }
    let mut s = String::new();
    s.append("[");
    s.append(device.as_str());
    s.append("]");
    assert(s@ =~= ownership_tag(device@));
    s
}

/// Whether the comment carries the ownership tag of `device`.
pub fn is_owned_by(comment: &Option<String>, device: &String) -> (r: bool)
    ensures
        r == owned_by(*comment, device@),
{
    match comment {
        Some(c) => {
            let tag = ownership_tag_string(device);
            starts_with(c.as_str(), tag.as_str())
        },
        None => false,
    }
}

fn tagged_comment_string(device: &String, comment: &Option<String>) -> (r: String)
    ensures
        r@ == tagged_comment(device@, *comment),
{
    proof {
        reveal_strlit(" ");
    }
    let mut s = ownership_tag_string(device);
    s.append(" ");
    match comment {
        Some(c) => s.append(c.as_str()),
        None => {},
    }
    assert(s@ =~= tagged_comment(device@, *comment));
    s
}

proof fn lemma_views_push(ops: Seq<DnsOperation>, o: DnsOperation)
    ensures
        operations_view(ops.push(o)) == operations_view(ops).push(o@),
{
    assert(operations_view(ops.push(o)) =~= operations_view(ops).push(o@));
}

impl IpDifference {
    /// The writes against the provider that this change calls for, given the
    /// configuration, the provider's zones and the records listed per zone
    /// name.
    ///
    /// An added address yields one creation for every template that relates to
    /// it in every zone rule whose zone the provider has. A removed address
    /// yields, for every such pair, the deletion of the zone's first record
    /// holding the address, only when that record's comment carries this
    /// device's tag.
    pub fn apply(
        &self,
        config: &Config,
        zones: &Vec<Zone>,
        records_by_zone: &ZoneRecords,
    ) -> (r: Vec<DnsOperation>)
        ensures
            operations_view(r@) == plan(*self, *config, zones@, records_by_zone@),
    {
        let dns_records = records_by_zone.entries();
        let mut ops: Vec<DnsOperation> = Vec::new();
        let ghost device = config.device@;
        let mut i: usize = 0;
        while i < config.zones.len()
            invariant
                i <= config.zones@.len(),
                device == config.device@,
                operations_view(ops@) == match *self {
                    IpDifference::Add(ip) => add_ops(
                        ip,
                        device,
                        zones@,
                        config.zones@.subrange(0, i as int),
                    ),
                    IpDifference::Remove(ip) => remove_ops(
                        ip,
                        device,
                        zones@,
                        dns_records@,
                        config.zones@.subrange(0, i as int),
                    ),
                },
            decreases config.zones@.len() - i,
        {
            let zone_config = &config.zones[i];
            let zi = find_zone_index(zones, &zone_config.name);
            let ghost zone = find_zone(zones@, zone_config.name@);
            let ghost base = ops@;
            let mut j: usize = 0;
            while j < zone_config.records.len()
                invariant
                    i < config.zones@.len(),
                    *zone_config == config.zones@[i as int],
                    j <= zone_config.records@.len(),
                    device == config.device@,
                    zone == find_zone(zones@, zone_config.name@),
                    match zi {
                        Some(k) => k < zones@.len() && zone == Some(zones@[k as int]),
                        None => zone is None,
                    },
                    operations_view(ops@) == operations_view(base) + match *self {
                        IpDifference::Add(ip) => add_ops_for(
                            ip,
                            device,
                            zone,
                            zone_config.records@.subrange(0, j as int),
                        ),
                        IpDifference::Remove(ip) => remove_ops_for(
                            ip,
                            device,
                            zone,
                            dns_records@,
                            zone_config.records@.subrange(0, j as int),
                        ),
                    },
                decreases zone_config.records@.len() - j,
            {
                let record = &zone_config.records[j];
                let ghost before = ops@;
                proof {
                    lemma_prefix_step(zone_config.records@, j as int);
                }
                match self {
                    IpDifference::Add(ip) => {
                        if record.dns_type.related(ip) {
                            match zi {
                                Some(k) => {
                                    let zone_ref = &zones[k];
                                    let mut rec = CfDnsRecord::create(*ip, record);
                                    rec.comment = Some(tagged_comment_string(&config.device, &record.comment));
                                    let op = DnsOperation::Create {
                                        zone_id: zone_ref.id.clone(),
                                        record: rec,
                                    };
                                    ops.push(op);
                                    proof {
                                        lemma_views_push(before, op);
                                    }
                                },
                                None => {},
                            }
                        }
                    },
                    IpDifference::Remove(ip) => {
                        if record.dns_type.related(ip) {
                            match zi {
                                Some(k) => {
                                    let zone_ref = &zones[k];
                                    match find_records_index(dns_records, &zone_ref.name) {
                                        Some(e) => {
                                            let recs = &dns_records[e].1;
                                            let text = ip_to_string(ip);
                                            match find_content_index(recs, &text) {
                                                Some(m) => {
                                                    let found = &recs[m];
                                                    if is_owned_by(&found.comment, &config.device) {
                                                        let op = DnsOperation::Delete {
                                                            zone_id: zone_ref.id.clone(),
                                                            record_id: found.id.clone(),
                                                        };
                                                        ops.push(op);
                                                        proof {
                                                            lemma_views_push(before, op);
                                                        }
                                                    }
                                                },
                                                None => {},
                                            }
                                        },
                                        None => {},
                                    }
                                },
                                None => {},
                            }
                        }
                    },
                }
                proof {
                    assert(operations_view(ops@) =~= operations_view(base) + match *self {
                        IpDifference::Add(ip) => add_ops_for(
                            ip,
                            device,
                            zone,
                            zone_config.records@.subrange(0, j as int + 1),
                        ),
                        IpDifference::Remove(ip) => remove_ops_for(
                            ip,
                            device,
                            zone,
                            dns_records@,
                            zone_config.records@.subrange(0, j as int + 1),
                        ),
                    });
                }
                j = j + 1;
            }
            proof {
                lemma_prefix_step(config.zones@, i as int);
                assert(zone_config.records@.subrange(0, j as int) =~= zone_config.records@);
            }
            i = i + 1;
        }
        proof {
            assert(config.zones@.subrange(0, i as int) =~= config.zones@);
        }
        ops
    }
}

/// Each operation of `ops` deletes a record listed in `dns_records` whose
/// comment carries the tag of `device`.
pub open spec fn deletes_only_owned(
    ops: Seq<OperationView>,
    device: Seq<char>,
    dns_records: Seq<(String, Vec<DnsRecordResult>)>,
) -> bool {
    forall|k: int|
        0 <= k < ops.len() ==> #[trigger] ops[k] is Delete && exists|
            e: (String, Vec<DnsRecordResult>),
            r: DnsRecordResult,
        |
            dns_records.contains(e) && e.1@.contains(r) && owned_by(r.comment, device)
                && ops[k]->Delete_record_id == r.id@
}

proof fn lemma_find_records_found(
    dns_records: Seq<(String, Vec<DnsRecordResult>)>,
    name: Seq<char>,
)
    ensures
        find_records(dns_records, name) matches Some(e) ==> dns_records.contains(e),
    decreases dns_records.len(),
{
    if dns_records.len() > 0 && dns_records[0].0@ != name {
        let t = dns_records.subrange(1, dns_records.len() as int);
        lemma_find_records_found(t, name);
        if let Some(e) = find_records(t, name) {
            let k = choose|k: int| 0 <= k < t.len() && t[k] == e;
            assert(dns_records[k + 1] == e);
        }
    } else if dns_records.len() > 0 {
        assert(dns_records[0] == dns_records[0]);
    }
}

proof fn lemma_find_content_found(records: Seq<DnsRecordResult>, content: Seq<char>)
    ensures
        find_content(records, content) matches Some(r) ==> records.contains(r),
    decreases records.len(),
{
    if records.len() > 0 && records[0].content@ != content {
        let t = records.subrange(1, records.len() as int);
        lemma_find_content_found(t, content);
        if let Some(r) = find_content(t, content) {
            let k = choose|k: int| 0 <= k < t.len() && t[k] == r;
            assert(records[k + 1] == r);
        }
    } else if records.len() > 0 {
        assert(records[0] == records[0]);
    }
}

proof fn lemma_owned_concat(
    a: Seq<OperationView>,
    b: Seq<OperationView>,
    device: Seq<char>,
    dns_records: Seq<(String, Vec<DnsRecordResult>)>,
)
    requires
        deletes_only_owned(a, device, dns_records),
        deletes_only_owned(b, device, dns_records),
    ensures
        deletes_only_owned(a + b, device, dns_records),
{
    assert forall|k: int| 0 <= k < (a + b).len() implies #[trigger] (a + b)[k] is Delete && exists|
        e: (String, Vec<DnsRecordResult>),
        r: DnsRecordResult,
    |
        dns_records.contains(e) && e.1@.contains(r) && owned_by(r.comment, device) && (a
            + b)[k]->Delete_record_id == r.id@ by {
        if k < a.len() {
            assert((a + b)[k] == a[k]);
        } else {
            assert((a + b)[k] == b[k - a.len()]);
        }
    }
}

proof fn lemma_remove_ops_for_owned(
    ip: IpAddr,
    device: Seq<char>,
    zone: Option<Zone>,
    dns_records: Seq<(String, Vec<DnsRecordResult>)>,
    recs: Seq<DnsRecordConfig>,
)
    ensures
        deletes_only_owned(remove_ops_for(ip, device, zone, dns_records, recs), device, dns_records),
    decreases recs.len(),
{
    if recs.len() > 0 {
        let prev = remove_ops_for(ip, device, zone, dns_records, recs.drop_last());
        lemma_remove_ops_for_owned(ip, device, zone, dns_records, recs.drop_last());
        if recs.last().dns_type.relates(ip) && zone is Some && remove_op(
            ip,
            device,
            zone->0,
            dns_records,
        ) is Some {
            let z = zone->0;
            let e = find_records(dns_records, z.name@)->0;
            let r = find_content(e.1@, ip_text(ip))->0;
            lemma_find_records_found(dns_records, z.name@);
            lemma_find_content_found(e.1@, ip_text(ip));
            let o = remove_op(ip, device, z, dns_records)->0;
            assert(dns_records.contains(e));
            assert(e.1@.contains(r));
            assert(owned_by(r.comment, device));
            assert(o == OperationView::Delete { zone_id: z.id@, record_id: r.id@ });
            assert forall|k: int| 0 <= k < seq![o].len() implies #[trigger] seq![o][k] is Delete
                && exists|e2: (String, Vec<DnsRecordResult>), r2: DnsRecordResult|
                dns_records.contains(e2) && e2.1@.contains(r2) && owned_by(r2.comment, device)
                    && seq![o][k]->Delete_record_id == r2.id@ by {
                assert(seq![o][k] == o);
            }
            lemma_owned_concat(prev, seq![o], device, dns_records);
            assert(prev + seq![o] =~= prev.push(o));
        }
    }
}

proof fn lemma_remove_ops_owned(
    ip: IpAddr,
    device: Seq<char>,
    zones: Seq<Zone>,
    dns_records: Seq<(String, Vec<DnsRecordResult>)>,
    zcs: Seq<ZoneConfig>,
)
    ensures
        deletes_only_owned(remove_ops(ip, device, zones, dns_records, zcs), device, dns_records),
    decreases zcs.len(),
{
    if zcs.len() > 0 {
        let zc = zcs.last();
        lemma_remove_ops_owned(ip, device, zones, dns_records, zcs.drop_last());
        lemma_remove_ops_for_owned(ip, device, find_zone(zones, zc.name@), dns_records, zc.records@);
        lemma_owned_concat(
            remove_ops(ip, device, zones, dns_records, zcs.drop_last()),
            remove_ops_for(ip, device, find_zone(zones, zc.name@), dns_records, zc.records@),
            device,
            dns_records,
        );
    }
}

/// An address that disappears only ever leads to deletions, and each deletes
/// a listed record whose comment carries this device's tag: records without
/// the tag, or with another device's, are never touched.
pub proof fn lemma_removal_deletes_only_owned(
    ip: IpAddr,
    config: Config,
    zones: Seq<Zone>,
    dns_records: Seq<(String, Vec<DnsRecordResult>)>,
)
    ensures
        deletes_only_owned(
            plan(IpDifference::Remove(ip), config, zones, dns_records),
            config.device@,
            dns_records,
        ),
{
    lemma_remove_ops_owned(ip, config.device@, zones, dns_records, config.zones@);
}

// ---------------------------------------------------------------------------
// Full resync
// ---------------------------------------------------------------------------

/// Some address of `ips` has `content` as its text form.
pub open spec fn holds_any(content: Seq<char>, ips: Seq<IpAddr>) -> bool {
    exists|k: int| 0 <= k < ips.len() && ip_text(#[trigger] ips[k]) == content
}

/// A record that a full resync deletes: one that carries the tag of
/// `device`, or one without it whose content is a current public address.
pub open spec fn stale(device: Seq<char>, ips: Seq<IpAddr>, r: DnsRecordResult) -> bool {
    owned_by(r.comment, device) || holds_any(r.content@, ips)
}

/// The deletions of a full resync in one zone, in the order of its records.
pub open spec fn resync_zone_ops(
    device: Seq<char>,
    ips: Seq<IpAddr>,
    zone_id: Seq<char>,
    recs: Seq<DnsRecordResult>,
) -> Seq<OperationView>
    decreases recs.len(),
{
    if recs.len() == 0 {
        seq![]
    } else {
        let prev = resync_zone_ops(device, ips, zone_id, recs.drop_last());
        if stale(device, ips, recs.last()) {
            prev.push(OperationView::Delete { zone_id, record_id: recs.last().id@ })
        } else {
            prev
        }
    }
}

/// The deletions of a full resync over every zone, in order.
pub open spec fn resync_ops(
    device: Seq<char>,
    ips: Seq<IpAddr>,
    zone_records: Seq<(Zone, Vec<DnsRecordResult>)>,
) -> Seq<OperationView>
    decreases zone_records.len(),
{
    if zone_records.len() == 0 {
        seq![]
    } else {
        let e = zone_records.last();
        resync_ops(device, ips, zone_records.drop_last()) + resync_zone_ops(
            device,
            ips,
            e.0.id@,
            e.1@,
        )
    }
}

fn holds_any_of(record: &DnsRecordResult, ips: &Vec<IpAddr>) -> (r: bool)
    ensures
        r == holds_any(record.content@, ips@),
{
    let mut i: usize = 0;
    while i < ips.len()
        invariant
            i <= ips@.len(),
            forall|k: int| 0 <= k < i ==> ip_text(#[trigger] ips@[k]) != record.content@,
        decreases ips@.len() - i,
    {
        if record.matches_ip(&ips[i]) {
            return true;
        }
        i = i + 1;
    }
    false
}

/// The deletions of the cleanup pass that precedes a full resync, given each
/// provider zone with its listed records and the host's current public
/// addresses: every record that carries this device's tag, and every other
/// record whose content is one of those addresses.
pub fn delete_old_dns_records(
    config: &Config,
    zone_records: &Vec<(Zone, Vec<DnsRecordResult>)>,
    public_ips: &Vec<IpAddr>,
) -> (r: Vec<DnsOperation>)
    ensures
        operations_view(r@) == resync_ops(config.device@, public_ips@, zone_records@),
{
    let ghost device = config.device@;
    let mut ops: Vec<DnsOperation> = Vec::new();
    let mut i: usize = 0;
    while i < zone_records.len()
        invariant
            i <= zone_records@.len(),
            device == config.device@,
            operations_view(ops@) == resync_ops(
                device,
                public_ips@,
                zone_records@.subrange(0, i as int),
            ),
        decreases zone_records@.len() - i,
    {
        let zone = &zone_records[i].0;
        let records = &zone_records[i].1;
        let ghost base = ops@;
        let mut j: usize = 0;
        while j < records.len()
            invariant
                i < zone_records@.len(),
                *zone == zone_records@[i as int].0,
                *records == zone_records@[i as int].1,
                j <= records@.len(),
                device == config.device@,
                operations_view(ops@) == operations_view(base) + resync_zone_ops(
                    device,
                    public_ips@,
                    zone.id@,
                    records@.subrange(0, j as int),
                ),
            decreases records@.len() - j,
        {
            let record = &records[j];
            let ghost before = ops@;
            proof {
                lemma_prefix_step(records@, j as int);
            }
            if is_owned_by(&record.comment, &config.device) {
                let op = DnsOperation::Delete { zone_id: zone.id.clone(), record_id: record.id.clone() };
                ops.push(op);
                proof {
                    lemma_views_push(before, op);
                }
            } else if holds_any_of(record, public_ips) {
                let op = DnsOperation::Delete { zone_id: zone.id.clone(), record_id: record.id.clone() };
                ops.push(op);
                proof {
                    lemma_views_push(before, op);
                }
            }
            proof {
                assert(operations_view(ops@) =~= operations_view(base) + resync_zone_ops(
                    device,
                    public_ips@,
                    zone.id@,
                    records@.subrange(0, j as int + 1),
                ));
            }
            j = j + 1;
        }
        proof {
            lemma_prefix_step(zone_records@, i as int);
            assert(records@.subrange(0, j as int) =~= records@);
        }
        i = i + 1;
    }
    proof {
        assert(zone_records@.subrange(0, i as int) =~= zone_records@);
    }
    ops
}

/// The records of one zone that a full resync leaves in place.
pub open spec fn survivors(device: Seq<char>, ips: Seq<IpAddr>, recs: Seq<DnsRecordResult>) -> Seq<
    DnsRecordResult,
> {
    recs.filter(|r: DnsRecordResult| !stale(device, ips, r))
}

/// One deletion per record, in order.
pub open spec fn deletions(zone_id: Seq<char>, recs: Seq<DnsRecordResult>) -> Seq<OperationView> {
    recs.map_values(|r: DnsRecordResult| OperationView::Delete { zone_id, record_id: r.id@ })
}

proof fn lemma_resync_zone_concat(
    device: Seq<char>,
    ips: Seq<IpAddr>,
    zone_id: Seq<char>,
    a: Seq<DnsRecordResult>,
    b: Seq<DnsRecordResult>,
)
    ensures
        resync_zone_ops(device, ips, zone_id, a + b) == resync_zone_ops(device, ips, zone_id, a)
            + resync_zone_ops(device, ips, zone_id, b),
    decreases b.len(),
{
    if b.len() == 0 {
        assert(a + b =~= a);
        assert(resync_zone_ops(device, ips, zone_id, a) + resync_zone_ops(device, ips, zone_id, b)
            =~= resync_zone_ops(device, ips, zone_id, a));
    } else {
        assert((a + b).drop_last() =~= a + b.drop_last());
        assert((a + b).last() == b.last());
        lemma_resync_zone_concat(device, ips, zone_id, a, b.drop_last());
        let x = resync_zone_ops(device, ips, zone_id, a);
        let y = resync_zone_ops(device, ips, zone_id, b.drop_last());
        let o = OperationView::Delete { zone_id, record_id: b.last().id@ };
        assert((x + y).push(o) =~= x + y.push(o));
    }
}

proof fn lemma_resync_survivors_empty(
    device: Seq<char>,
    ips: Seq<IpAddr>,
    zone_id: Seq<char>,
    recs: Seq<DnsRecordResult>,
)
    ensures
        resync_zone_ops(device, ips, zone_id, survivors(device, ips, recs)).len() == 0,
    decreases recs.len(),
{
    reveal(Seq::filter);
    if recs.len() > 0 {
        lemma_resync_survivors_empty(device, ips, zone_id, recs.drop_last());
        let s = survivors(device, ips, recs.drop_last());
        if !stale(device, ips, recs.last()) {
            assert(survivors(device, ips, recs) == s.push(recs.last()));
            assert(s.push(recs.last()).drop_last() =~= s);
        }
    }
}

proof fn lemma_resync_created(
    device: Seq<char>,
    ips: Seq<IpAddr>,
    zone_id: Seq<char>,
    created: Seq<DnsRecordResult>,
)
    requires
        forall|k: int|
            0 <= k < created.len() ==> owned_by(#[trigger] created[k].comment, device),
    ensures
        resync_zone_ops(device, ips, zone_id, created) == deletions(zone_id, created),
    decreases created.len(),
{
    if created.len() > 0 {
        lemma_resync_created(device, ips, zone_id, created.drop_last());
        assert(owned_by(created[created.len() - 1].comment, device));
        assert(deletions(zone_id, created) =~= deletions(zone_id, created.drop_last()).push(
            OperationView::Delete { zone_id, record_id: created.last().id@ },
        ));
    }
}

/// A listed record as `device` created it: its comment is a tagged comment.
pub open spec fn made_by(device: Seq<char>, r: DnsRecordResult) -> bool {
    r.comment is Some && exists|c: Option<String>| r.comment->0@ == tagged_comment(device, c)
}

/// A record created by `device` carries its tag.
pub proof fn lemma_created_owned(device: Seq<char>, comment: Option<String>)
    ensures
        ownership_tag(device).is_prefix_of(tagged_comment(device, comment)),
{
    let t = ownership_tag(device);
    assert(tagged_comment(device, comment).subrange(0, t.len() as int) =~= t);
}

/// In one zone: a second full resync with no address change in between
/// deletes none of the records that the first one left, and deletes exactly
/// the records that the first one created (each carries this device's tag)
/// so that they are made again.
pub proof fn lemma_resync_zone_idempotent(
    device: Seq<char>,
    ips: Seq<IpAddr>,
    zone_id: Seq<char>,
    recs: Seq<DnsRecordResult>,
    created: Seq<DnsRecordResult>,
)
    requires
        forall|k: int| 0 <= k < created.len() ==> made_by(device, #[trigger] created[k]),
    ensures
        resync_zone_ops(device, ips, zone_id, survivors(device, ips, recs)).len() == 0,
        resync_zone_ops(device, ips, zone_id, survivors(device, ips, recs) + created) == deletions(
            zone_id,
            created,
        ),
{
    let s = survivors(device, ips, recs);
    lemma_resync_survivors_empty(device, ips, zone_id, recs);
    assert forall|k: int| 0 <= k < created.len() implies owned_by(
        #[trigger] created[k].comment,
        device,
    ) by {
        assert(made_by(device, created[k]));
        let c = choose|c: Option<String>| created[k].comment->0@ == tagged_comment(device, c);
        lemma_created_owned(device, c);
    }
    lemma_resync_created(device, ips, zone_id, created);
    lemma_resync_zone_concat(device, ips, zone_id, s, created);
    assert(resync_zone_ops(device, ips, zone_id, s) =~= seq![]);
    assert(resync_zone_ops(device, ips, zone_id, s) + deletions(zone_id, created) =~= deletions(
        zone_id,
        created,
    ));
}

} // verus!
