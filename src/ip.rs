use crate::address::{ip_text, ip_to_string, is_private_ip, is_private_spec, IpAddr};
use vstd::prelude::*;

verus! {

/// The file that holds the last observed public addresses, one per line.
pub const CACHE_FILE: &'static str = "./ip_cache.txt";

/// Relies on `std::path::Path::exists`: whether a file is at `path` now.
#[verifier::external_body]
fn path_exists(path: &str) -> bool {
    std::path::Path::new(path).exists()
}

/// Whether an address cache was saved before.
pub fn has_ip_cache() -> bool {
    path_exists(CACHE_FILE)
}

/// The public addresses of `all`, each once, in the order of their first
/// occurrence.
pub open spec fn public_spec(all: Seq<IpAddr>) -> Seq<IpAddr>
    decreases all.len(),
{
    if all.len() == 0 {
        seq![]
    } else {
        let kept = public_spec(all.drop_last());
        let ip = all.last();
        if !is_private_spec(ip) && !kept.contains(ip) {
            kept.push(ip)
        } else {
            kept
        }
    }
}

/// The kept addresses are distinct, and an address is kept exactly when it
/// is in `all` and public.
pub proof fn lemma_public_spec(all: Seq<IpAddr>)
    ensures
        public_spec(all).no_duplicates(),
        forall|ip: IpAddr|
            #[trigger] public_spec(all).contains(ip) <==> (all.contains(ip) && !is_private_spec(
                ip,
            )),
    decreases all.len(),
{
    if all.len() > 0 {
        let prev = all.drop_last();
        let kept = public_spec(prev);
        let last = all.last();
        lemma_public_spec(prev);
        assert forall|ip: IpAddr| all.contains(ip) <==> (prev.contains(ip) || ip == last) by {
            if all.contains(ip) {
                let k = choose|k: int| 0 <= k < all.len() && all[k] == ip;
                if k < all.len() - 1 {
                    assert(prev[k] == ip);
                }
            }
            if prev.contains(ip) {
                let k = choose|k: int| 0 <= k < prev.len() && prev[k] == ip;
                assert(all[k] == ip);
            }
            if ip == last {
                assert(all[all.len() - 1] == ip);
            }
        }
        if !is_private_spec(last) && !kept.contains(last) {
            let r = kept.push(last);
            assert forall|ip: IpAddr| r.contains(ip) <==> (kept.contains(ip) || ip == last) by {
                if r.contains(ip) {
                    let k = choose|k: int| 0 <= k < r.len() && r[k] == ip;
                    if k < kept.len() {
                        assert(kept[k] == ip);
                    }
                }
                if kept.contains(ip) {
                    let k = choose|k: int| 0 <= k < kept.len() && kept[k] == ip;
                    assert(r[k] == ip);
                }
                if ip == last {
                    assert(r[r.len() - 1] == ip);
                }
            }
            assert forall|a: int, b: int| 0 <= a < r.len() && 0 <= b < r.len() && a != b implies r[a]
                != r[b] by {
                if a < kept.len() && b < kept.len() {
                } else if a < kept.len() {
                    assert(kept.contains(r[a]));
                } else if b < kept.len() {
                    assert(kept.contains(r[b]));
                }
            }
        }
    }
}

/// Keeps the public addresses among the addresses bound to local interfaces,
/// each once: an address bound to several interfaces is one address.
pub fn get_public_ipaddrs(all: &Vec<IpAddr>) -> (r: Vec<IpAddr>)
    ensures
        r@ == public_spec(all@),
        r@.no_duplicates(),
        forall|ip: IpAddr| #[trigger] r@.contains(ip) <==> (all@.contains(ip) && !is_private_spec(ip)),
{
    let mut r: Vec<IpAddr> = Vec::new();
    let mut i: usize = 0;
    while i < all.len()
        invariant
            i <= all@.len(),
            r@ == public_spec(all@.subrange(0, i as int)),
        decreases all@.len() - i,
    {
        let ip = all[i];
        proof {
            let s = all@.subrange(0, i as int + 1);
            assert(s.drop_last() =~= all@.subrange(0, i as int));
        }
        if !is_private_ip(&ip) && !contains_addr(&r, &ip) {
            r.push(ip);
        }
        i = i + 1;
    }
    assert(all@.subrange(0, all@.len() as int) =~= all@);
    proof {
        lemma_public_spec(all@);
    }
    r
}

/// A set of observed public addresses.
#[derive(Debug, Clone, PartialEq, Default)]
pub struct IpCache(pub Vec<IpAddr>);

/// One change between two observed address sets.
#[derive(Debug, Clone, Copy, PartialEq, Eq, Structural)]
pub enum IpDifference {
    Add(IpAddr),
    Remove(IpAddr),
}

/// `r` lists, once each, an `Add` for every address of `next` missing from
/// `prev` and a `Remove` for every address of `prev` missing from `next`, and
/// nothing else.
pub open spec fn is_difference(prev: Seq<IpAddr>, next: Seq<IpAddr>, r: Seq<IpDifference>) -> bool {
    &&& r.no_duplicates()
    &&& forall|k: int|
        0 <= k < r.len() ==> match #[trigger] r[k] {
            IpDifference::Add(ip) => next.contains(ip) && !prev.contains(ip),
            IpDifference::Remove(ip) => prev.contains(ip) && !next.contains(ip),
        }
    &&& forall|ip: IpAddr|
        next.contains(ip) && !prev.contains(ip) ==> #[trigger] r.contains(IpDifference::Add(ip))
    &&& forall|ip: IpAddr|
        prev.contains(ip) && !next.contains(ip) ==> #[trigger] r.contains(IpDifference::Remove(ip))
}

fn contains_addr(v: &Vec<IpAddr>, ip: &IpAddr) -> (r: bool)
    ensures
        r == v@.contains(*ip),
{
    let mut i: usize = 0;
    while i < v.len()
        invariant
            i <= v@.len(),
            forall|k: int| 0 <= k < i ==> v@[k] != *ip,
        decreases v@.len() - i,
    {
        if v[i] == *ip {
            return true;
        }
        i = i + 1;
    }
    false
}

fn contains_difference(v: &Vec<IpDifference>, d: &IpDifference) -> (r: bool)
    ensures
        r == v@.contains(*d),
{
    let mut i: usize = 0;
    while i < v.len()
        invariant
            i <= v@.len(),
            forall|k: int| 0 <= k < i ==> v@[k] != *d,
        decreases v@.len() - i,
    {
        if v[i] == *d {
            return true;
        }
        i = i + 1;
    }
    false
}

/// The addresses in text form, one per line.
pub open spec fn cache_text(ips: Seq<IpAddr>) -> Seq<char>
    decreases ips.len(),
{
    if ips.len() == 0 {
        seq![]
    } else if ips.len() == 1 {
        ip_text(ips[0])
    } else {
        cache_text(ips.drop_last()) + seq!['\n'] + ip_text(ips.last())
    }
}

impl IpCache {
    /// The text saved in the cache file: one address per line.
    pub fn to_text(&self) -> (r: String)
        ensures
            r@ == cache_text(self.0@),
    {
        let mut out = String::new();
        let mut i: usize = 0;
        while i < self.0.len()
            invariant
                i <= self.0@.len(),
                out@ == cache_text(self.0@.subrange(0, i as int)),
            decreases self.0@.len() - i,
        {
            let ghost before = out@;
            proof {
                reveal_strlit("\n");
            }
            if i > 0 {
                out.append("\n");
            }
            let t = ip_to_string(&self.0[i]);
            out.append(t.as_str());
            proof {
                let s = self.0@.subrange(0, i as int + 1);
                assert(s.drop_last() =~= self.0@.subrange(0, i as int));
                if i > 0 {
                    assert(out@ =~= before + seq!['\n'] + ip_text(s.last()));
                } else {
                    assert(out@ =~= ip_text(s[0]));
                }
            }
            i = i + 1;
        }
        assert(self.0@.subrange(0, i as int) =~= self.0@);
        out
    }

    /// The public addresses among those bound to local interfaces.
    pub fn new(interface_addrs: &Vec<IpAddr>) -> (r: Self)
        ensures
            r.0@ == public_spec(interface_addrs@),
            r.0@.no_duplicates(),
            forall|ip: IpAddr|
                #[trigger] r.0@.contains(ip) <==> (interface_addrs@.contains(ip)
                    && !is_private_spec(ip)),
    {
        IpCache(get_public_ipaddrs(interface_addrs))
    }

    /// The changes from the addresses of `self` to those of `other`: first
    /// the additions, then the removals.
    pub fn different(self, other: IpCache) -> (r: Vec<IpDifference>)
        ensures
            is_difference(self.0@, other.0@, r@),
    {
        let prev = &self.0;
        let next = &other.0;
        let mut r: Vec<IpDifference> = Vec::new();
        let mut i: usize = 0;
        while i < next.len()
            invariant
                i <= next@.len(),
                r@.no_duplicates(),
                forall|k: int|
                    0 <= k < r@.len() ==> match #[trigger] r@[k] {
                        IpDifference::Add(ip) => next@.contains(ip) && !prev@.contains(ip),
                        IpDifference::Remove(ip) => false,
                    },
                forall|j: int|
                    0 <= j < i && !prev@.contains(#[trigger] next@[j]) ==> r@.contains(
                        IpDifference::Add(next@[j]),
                    ),
            decreases next@.len() - i,
        {
            let ip = next[i];
            let d = IpDifference::Add(ip);
            let ghost before = r@;
            if !contains_addr(prev, &ip) && !contains_difference(&r, &d) {
                r.push(d);
                proof {
                    assert forall|k: int| 0 <= k < r@.len() - 1 implies r@[k] != d by {
                        assert(before.contains(before[k]));
                    }
                    assert forall|x: IpDifference| before.contains(x) implies r@.contains(x) by {
                        let k = choose|k: int| 0 <= k < before.len() && before[k] == x;
                        assert(r@[k] == x);
                    }
                }
            }
            proof {
                assert forall|j: int|
                    0 <= j < i + 1 && !prev@.contains(#[trigger] next@[j]) implies r@.contains(
                    IpDifference::Add(next@[j]),
                ) by {
                    if j == i {
                        if !r@.contains(d) {
                            assert(r@[r@.len() - 1] == d);
                        }
                    }
                }
            }
            i = i + 1;
        }
        let mut i: usize = 0;
        while i < prev.len()
            invariant
                i <= prev@.len(),
                r@.no_duplicates(),
                forall|k: int|
                    0 <= k < r@.len() ==> match #[trigger] r@[k] {
                        IpDifference::Add(ip) => next@.contains(ip) && !prev@.contains(ip),
                        IpDifference::Remove(ip) => prev@.contains(ip) && !next@.contains(ip),
                    },
                forall|j: int|
                    0 <= j < next@.len() && !prev@.contains(#[trigger] next@[j]) ==> r@.contains(
                        IpDifference::Add(next@[j]),
                    ),
                forall|j: int|
                    0 <= j < i && !next@.contains(#[trigger] prev@[j]) ==> r@.contains(
                        IpDifference::Remove(prev@[j]),
                    ),
            decreases prev@.len() - i,
        {
            let ip = prev[i];
            let d = IpDifference::Remove(ip);
            let ghost before = r@;
            if !contains_addr(next, &ip) && !contains_difference(&r, &d) {
                r.push(d);
                proof {
                    assert forall|k: int| 0 <= k < r@.len() - 1 implies r@[k] != d by {
                        assert(before.contains(before[k]));
                    }
                    assert forall|x: IpDifference| before.contains(x) implies r@.contains(x) by {
                        let k = choose|k: int| 0 <= k < before.len() && before[k] == x;
                        assert(r@[k] == x);
                    }
                }
            }
            proof {
                assert forall|j: int|
                    0 <= j < i + 1 && !next@.contains(#[trigger] prev@[j]) implies r@.contains(
                    IpDifference::Remove(prev@[j]),
                ) by {
                    if j == i {
                        if !r@.contains(d) {
                            assert(r@[r@.len() - 1] == d);
                        }
                    }
                }
            }
            i = i + 1;
        }
        proof {
            assert forall|ip: IpAddr| next@.contains(ip) && !prev@.contains(ip) implies #[trigger] r@.contains(
                IpDifference::Add(ip),
            ) by {
                let j = choose|j: int| 0 <= j < next@.len() && next@[j] == ip;
            }
            assert forall|ip: IpAddr| prev@.contains(ip) && !next@.contains(ip) implies #[trigger] r@.contains(
                IpDifference::Remove(ip),
            ) by {
                let j = choose|j: int| 0 <= j < prev@.len() && prev@[j] == ip;
            }
        }
        r
    }
}

/// Comparing an address set with itself yields no change.
pub proof fn lemma_diff_self_empty(a: Seq<IpAddr>, r: Seq<IpDifference>)
    requires
        is_difference(a, a, r),
    ensures
        r.len() == 0,
{
    if r.len() > 0 {
        let d = r[0];
    }
}

proof fn lemma_concat_contains(a: Seq<IpAddr>, b: Seq<IpAddr>, ip: IpAddr)
    ensures
        (a + b).contains(ip) <==> (a.contains(ip) || b.contains(ip)),
{
    if (a + b).contains(ip) {
        let k = choose|k: int| 0 <= k < (a + b).len() && (a + b)[k] == ip;
        if k < a.len() {
            assert(a[k] == ip);
        } else {
            assert(b[k - a.len()] == ip);
        }
    }
    if a.contains(ip) {
        let k = choose|k: int| 0 <= k < a.len() && a[k] == ip;
        assert((a + b)[k] == ip);
    }
    if b.contains(ip) {
        let k = choose|k: int| 0 <= k < b.len() && b[k] == ip;
        assert((a + b)[a.len() + k] == ip);
    }
}

/// For disjoint address sets `a` and `b`: going from `a` to `a ∪ b` adds
/// each address of `b` exactly once and removes nothing; going from `a ∪ b`
/// back to `a` removes each address of `b` exactly once and adds nothing.
pub proof fn lemma_diff_disjoint_union(
    a: Seq<IpAddr>,
    b: Seq<IpAddr>,
    grow: Seq<IpDifference>,
    shrink: Seq<IpDifference>,
)
    requires
        forall|ip: IpAddr| a.contains(ip) ==> !b.contains(ip),
        is_difference(a, a + b, grow),
        is_difference(a + b, a, shrink),
    ensures
        grow.no_duplicates(),
        forall|k: int|
            0 <= k < grow.len() ==> (#[trigger] grow[k] is Add && b.contains(grow[k]->Add_0)),
        forall|ip: IpAddr| b.contains(ip) ==> #[trigger] grow.contains(IpDifference::Add(ip)),
        shrink.no_duplicates(),
        forall|k: int|
            0 <= k < shrink.len() ==> (#[trigger] shrink[k] is Remove && b.contains(
                shrink[k]->Remove_0,
            )),
        forall|ip: IpAddr| b.contains(ip) ==> #[trigger] shrink.contains(IpDifference::Remove(ip)),
{
    assert forall|k: int| 0 <= k < grow.len() implies (#[trigger] grow[k] is Add && b.contains(
        grow[k]->Add_0,
    )) by {
        match grow[k] {
            IpDifference::Add(ip) => {
                lemma_concat_contains(a, b, ip);
            },
            IpDifference::Remove(ip) => {
                lemma_concat_contains(a, b, ip);
            },
        }
    }
    assert forall|ip: IpAddr| b.contains(ip) implies #[trigger] grow.contains(
        IpDifference::Add(ip),
    ) by {
        lemma_concat_contains(a, b, ip);
    }
    assert forall|k: int| 0 <= k < shrink.len() implies (#[trigger] shrink[k] is Remove
        && b.contains(shrink[k]->Remove_0)) by {
        match shrink[k] {
            IpDifference::Add(ip) => {
                lemma_concat_contains(a, b, ip);
            },
            IpDifference::Remove(ip) => {
                lemma_concat_contains(a, b, ip);
            },
        }
    }
    assert forall|ip: IpAddr| b.contains(ip) implies #[trigger] shrink.contains(
        IpDifference::Remove(ip),
    ) by {
        lemma_concat_contains(a, b, ip);
    }
}

} // verus!
