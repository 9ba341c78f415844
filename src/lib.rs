use vstd::prelude::*;

pub mod address;
pub mod cf_api;
pub mod config;
pub mod ip;
pub mod reconcile;
pub mod text;

use crate::cf_api::list_dns::DnsRecordResult;
use crate::cf_api::list_zones::Zone;
use crate::cf_api::{operations_view, DnsOperation, OperationView};
use crate::config::Config;
use crate::ip::IpDifference;
use crate::address::IpAddr;
use crate::reconcile::{
    deletions, lemma_resync_zone_idempotent, made_by, plan, resync_ops, survivors, ZoneRecords,
};

pub use crate::reconcile::delete_old_dns_records;

verus! {

/// Extending a prefix of `s` by one element.
pub(crate) proof fn lemma_prefix_step<T>(s: Seq<T>, i: int)
    requires
        0 <= i < s.len(),
    ensures
        s.subrange(0, i + 1).drop_last() == s.subrange(0, i),
        s.subrange(0, i + 1).last() == s[i],
{
    assert(s.subrange(0, i + 1).drop_last() =~= s.subrange(0, i));
}

/// What one poll cycle does.
#[derive(Debug, Clone, Copy, PartialEq, Eq, Structural)]
pub enum CycleAction {
    /// The configuration is unchanged: reconcile the address changes only.
    Incremental,
    /// The configuration changed: clean up and recreate every record.
    Resync,
}

/// The configuration hash decides between an incremental pass and a full
/// resync.
pub fn next_action(config_hash: u64, new_config_hash: u64) -> (r: CycleAction)
    ensures
        r == (if config_hash == new_config_hash {
            CycleAction::Incremental
        } else {
            CycleAction::Resync
        }),
{
    if config_hash == new_config_hash {
        CycleAction::Incremental
    } else {
        CycleAction::Resync
    }
}

/// The writes of every change, in order.
pub open spec fn plan_all(
    ds: Seq<IpDifference>,
    config: Config,
    zones: Seq<Zone>,
    dns_records: Seq<(String, Vec<DnsRecordResult>)>,
) -> Seq<OperationView>
    decreases ds.len(),
{
    if ds.len() == 0 {
        seq![]
    } else {
        plan_all(ds.drop_last(), config, zones, dns_records) + plan(
            ds.last(),
            config,
            zones,
            dns_records,
        )
    }
}

/// The writes that a list of address changes calls for, all decided from one
/// snapshot of the provider's zones and records. Each write stands alone: the
/// caller performs every one of them whatever became of the others.
pub fn apply_ip_differences(
    ip_differences: &Vec<IpDifference>,
    config: &Config,
    zones: &Vec<Zone>,
    dns_records: &ZoneRecords,
) -> (r: Vec<DnsOperation>)
    ensures
        operations_view(r@) == plan_all(ip_differences@, *config, zones@, dns_records@),
{
    let mut ops: Vec<DnsOperation> = Vec::new();
    let mut i: usize = 0;
    while i < ip_differences.len()
        invariant
            i <= ip_differences@.len(),
            operations_view(ops@) == plan_all(
                ip_differences@.subrange(0, i as int),
                *config,
                zones@,
                dns_records@,
            ),
        decreases ip_differences@.len() - i,
    {
        let mut more = ip_differences[i].apply(config, zones, dns_records);
        let ghost a = ops@;
        let ghost b = more@;
        ops.append(&mut more);
        proof {
            let s = ip_differences@.subrange(0, i as int + 1);
            assert(s.drop_last() =~= ip_differences@.subrange(0, i as int));
            assert(operations_view(a + b) =~= operations_view(a) + operations_view(b));
        }
        i = i + 1;
    }
    assert(ip_differences@.subrange(0, i as int) =~= ip_differences@);
    ops
}

/// The deletions of the records created in each zone, zone after zone.
pub open spec fn created_deletions(
    zone_records: Seq<(Zone, Vec<DnsRecordResult>)>,
    created: Seq<Seq<DnsRecordResult>>,
) -> Seq<OperationView>
    decreases zone_records.len(),
{
    if zone_records.len() == 0 || created.len() == 0 {
        seq![]
    } else {
        created_deletions(zone_records.drop_last(), created.drop_last()) + deletions(
            zone_records.last().0.id@,
            created.last(),
        )
    }
}

/// Additions alone yield the same writes whatever records are listed.
pub proof fn lemma_additions_ignore_records(
    ds: Seq<IpDifference>,
    config: Config,
    zones: Seq<Zone>,
    listed_before: Seq<(String, Vec<DnsRecordResult>)>,
    listed_after: Seq<(String, Vec<DnsRecordResult>)>,
)
    requires
        forall|k: int| 0 <= k < ds.len() ==> #[trigger] ds[k] is Add,
    ensures
        plan_all(ds, config, zones, listed_before) == plan_all(ds, config, zones, listed_after),
    decreases ds.len(),
{
    if ds.len() > 0 {
        lemma_additions_ignore_records(ds.drop_last(), config, zones, listed_before, listed_after);
        assert(ds[ds.len() - 1] is Add);
    }
}

/// Running the full resync twice with no address change in between. The
/// first pass deletes the stale records of each zone (`before`) and creates
/// the records `created[i]` in zone `i`; so the provider then holds, per zone,
/// the survivors followed by the created records (`after`). The second
/// cleanup deletes exactly the records that the first pass created and none
/// of the survivors, and the second pass creates the same records as the
/// first, since the addresses all come as additions.
pub proof fn lemma_resync_idempotent(
    device: Seq<char>,
    ips: Seq<IpAddr>,
    before: Seq<(Zone, Vec<DnsRecordResult>)>,
    after: Seq<(Zone, Vec<DnsRecordResult>)>,
    created: Seq<Seq<DnsRecordResult>>,
    additions: Seq<IpDifference>,
    config: Config,
    zones: Seq<Zone>,
    listed_before: Seq<(String, Vec<DnsRecordResult>)>,
    listed_after: Seq<(String, Vec<DnsRecordResult>)>,
)
    requires
        after.len() == before.len(),
        created.len() == before.len(),
        forall|i: int|
            0 <= i < before.len() ==> (#[trigger] after[i]).0 == before[i].0 && after[i].1@
                == survivors(device, ips, before[i].1@) + created[i],
        forall|i: int, k: int|
            0 <= i < created.len() && 0 <= k < created[i].len() ==> made_by(
                device,
                #[trigger] created[i][k],
            ),
        forall|k: int| 0 <= k < additions.len() ==> #[trigger] additions[k] is Add,
    ensures
        resync_ops(device, ips, after) == created_deletions(after, created),
        plan_all(additions, config, zones, listed_before) == plan_all(
            additions,
            config,
            zones,
            listed_after,
        ),
    decreases before.len(),
{
    lemma_additions_ignore_records(additions, config, zones, listed_before, listed_after);
    if before.len() > 0 {
        let n = before.len() - 1;
        lemma_resync_idempotent(
            device,
            ips,
            before.drop_last(),
            after.drop_last(),
            created.drop_last(),
            additions,
            config,
            zones,
            listed_before,
            listed_after,
        );
        assert(after[n].1@ == survivors(device, ips, before[n].1@) + created[n]);
        assert forall|k: int| 0 <= k < created[n].len() implies made_by(
            device,
            #[trigger] created[n][k],
        ) by {}
        lemma_resync_zone_idempotent(
            device,
            ips,
            after[n].0.id@,
            before[n].1@,
            created[n],
        );
    }
}

} // verus!
