//! Which stored specs get their verification status back at startup: those whose tenant's
//! persisted verification cache holds a passed result for the spec's current content.

use vstd::prelude::*;

use crate::text::{str_eq, string_views};

verus! {

/// A stored spec: its tenant, entity type and content hash.
#[derive(Debug, Clone, PartialEq, Eq)]
pub struct SpecRow {
    pub tenant: String,
    pub entity_type: String,
    pub content_hash: String,
}

/// A persisted verification result of one entity type.
#[derive(Debug, Clone, PartialEq, Eq)]
pub struct CachedVerification {
    pub entity_type: String,
    pub content_hash: String,
    pub verified: bool,
}

/// The persisted verification cache of a tenant (empty where it could not be loaded).
#[derive(Debug, Clone, PartialEq, Eq)]
pub struct TenantVerificationCache {
    pub tenant: String,
    pub entries: Vec<CachedVerification>,
}

/// The cached hash and result for an entity type.
pub open spec fn cache_lookup(entries: Seq<CachedVerification>, entity_type: Seq<char>) -> Option<
    (Seq<char>, bool),
>
    decreases entries.len(),
{
    if entries.len() == 0 {
        None
    } else if entries[0].entity_type@ == entity_type {
        Some((entries[0].content_hash@, entries[0].verified))
    } else {
        cache_lookup(entries.drop_first(), entity_type)
    }
}

/// Whether the cache holds a passed result for the row's current content.
pub open spec fn restorable(row: SpecRow, entries: Seq<CachedVerification>) -> bool {
    match cache_lookup(entries, row.entity_type@) {
        Some((hash, verified)) => verified && hash == row.content_hash@,
        None => false,
    }
}

/// The specs of the cache's tenant, in row order, whose status is restored from it; none
/// when the cache is empty.
pub open spec fn tenant_restores(rows: Seq<SpecRow>, cache: TenantVerificationCache) -> Seq<
    (Seq<char>, Seq<char>),
>
    decreases rows.len(),
{
    if rows.len() == 0 {
        Seq::empty()
    } else {
        let init = tenant_restores(rows.drop_last(), cache);
        let row = rows.last();
        if row.tenant@ == cache.tenant@ && cache.entries@.len() > 0 && restorable(row, cache.entries@) {
            init.push((row.tenant@, row.entity_type@))
        } else {
            init
        }
    }
}

/// The specs restored from each cache in turn.
pub open spec fn restores(rows: Seq<SpecRow>, caches: Seq<TenantVerificationCache>) -> Seq<
    (Seq<char>, Seq<char>),
>
    decreases caches.len(),
{
    if caches.len() == 0 {
        Seq::empty()
    } else {
        restores(rows, caches.drop_last()) + tenant_restores(rows, caches.last())
    }
}

/// The tenants of the rows, each once, in order of first appearance.
pub open spec fn distinct_tenants(rows: Seq<SpecRow>) -> Seq<Seq<char>>
    decreases rows.len(),
{
    if rows.len() == 0 {
        Seq::empty()
    } else {
        let init = distinct_tenants(rows.drop_last());
        if init.contains(rows.last().tenant@) {
            init
        } else {
            init.push(rows.last().tenant@)
        }
    }
}

/// The views of restored (tenant, entity type) pairs.
pub open spec fn pair_views(v: Seq<(String, String)>) -> Seq<(Seq<char>, Seq<char>)> {
    v.map_values(|p: (String, String)| (p.0@, p.1@))
}

fn is_restorable(row: &SpecRow, entries: &Vec<CachedVerification>) -> (r: bool)
    ensures
        r == restorable(*row, entries@),
{
    let mut i: usize = 0;
    assert(entries@.skip(0) =~= entries@);
    while i < entries.len()
        invariant
            i <= entries@.len(),
            cache_lookup(entries@, row.entity_type@) == cache_lookup(
                entries@.skip(i as int),
                row.entity_type@,
            ),
        decreases entries@.len() - i,
    {
        assert(entries@.skip(i as int).drop_first() =~= entries@.skip(i + 1));
        let e = &entries[i];
        if str_eq(e.entity_type.as_str(), row.entity_type.as_str()) {
            return e.verified && str_eq(e.content_hash.as_str(), row.content_hash.as_str());
        }
        i = i + 1;
    }
    false
}

/// The specs whose verification status is restored: for each cache in turn (one per
/// tenant), the rows of its tenant, in order, that it holds a passed result for.
pub fn specs_to_restore(rows: &Vec<SpecRow>, caches: &Vec<TenantVerificationCache>) -> (r: Vec<
    (String, String),
>)
    ensures
        pair_views(r@) == restores(rows@, caches@),
{
    let mut out: Vec<(String, String)> = Vec::new();
    let mut c: usize = 0;
    while c < caches.len()
        invariant
            c <= caches@.len(),
            pair_views(out@) == restores(rows@, caches@.take(c as int)),
        decreases caches@.len() - c,
    {
        let cache = &caches[c];
        let ghost start = pair_views(out@);
        let mut i: usize = 0;
        while i < rows.len()
            invariant
                i <= rows@.len(),
                c < caches@.len(),
                *cache == caches@[c as int],
                pair_views(out@) == start + tenant_restores(rows@.take(i as int), *cache),
            decreases rows@.len() - i,
        {
            let row = &rows[i];
            let ghost before = pair_views(out@);
            proof {
                assert(rows@.take(i + 1).drop_last() =~= rows@.take(i as int));
                assert(rows@.take(i + 1).last() == rows@[i as int]);
            }
            if str_eq(row.tenant.as_str(), cache.tenant.as_str()) && cache.entries.len() > 0
                && is_restorable(row, &cache.entries) {
                out.push((row.tenant.clone(), row.entity_type.clone()));
                proof {
                    assert(pair_views(out@) =~= before.push((row.tenant@, row.entity_type@)));
                }
            }
            i = i + 1;
        }
        proof {
            assert(rows@.take(rows@.len() as int) =~= rows@);
            assert(caches@.take(c + 1).drop_last() =~= caches@.take(c as int));
            assert(caches@.take(c + 1).last() == caches@[c as int]);
        }
        c = c + 1;
    }
    assert(caches@.take(caches@.len() as int) =~= caches@);
    out
}

/// The tenants whose verification caches startup loads: those of the rows, each once.
pub fn spec_tenants(rows: &Vec<SpecRow>) -> (r: Vec<String>)
    ensures
        string_views(r@) == distinct_tenants(rows@),
{
    let mut out: Vec<String> = Vec::new();
    let mut i: usize = 0;
    while i < rows.len()
        invariant
            i <= rows@.len(),
            string_views(out@) == distinct_tenants(rows@.take(i as int)),
        decreases rows@.len() - i,
    {
        let ghost before = string_views(out@);
        proof {
            assert(rows@.take(i + 1).drop_last() =~= rows@.take(i as int));
            assert(rows@.take(i + 1).last() == rows@[i as int]);
        }
        let t = &rows[i].tenant;
        let mut found = false;
        let mut k: usize = 0;
        while k < out.len()
            invariant
                k <= out@.len(),
                string_views(out@) == before,
                found == (exists|j: int| 0 <= j < k && out@[j]@ == t@),
            decreases out@.len() - k,
        {
            if str_eq(out[k].as_str(), t.as_str()) {
                found = true;
            }
            k = k + 1;
        }
        proof {
            if found {
                let j = choose|j: int| 0 <= j < k && out@[j]@ == t@;
                assert(before[j] == t@);
            } else {
                assert forall|j: int| 0 <= j < before.len() implies before[j] != t@ by {
                    assert(before[j] == out@[j]@);
                }
            }
        }
        if !found {
            out.push(t.clone());
            proof {
                assert(string_views(out@) =~= before.push(t@));
            }
        }
        i = i + 1;
    }
    assert(rows@.take(rows@.len() as int) =~= rows@);
    out
}

} // verus!
