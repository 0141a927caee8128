//! Properties that span several parts of the router.
use vstd::prelude::*;
use crate::ctl::{connected_spec, is_virtual_spec, lemma_connected_concat};
use crate::router::{catalogue, owner_entries, virtual_model_ids};
use crate::scoring::is_router_alias_spec;
use crate::setup::{
    ProviderView, ProviderEntry, HostedProvider, Section, TierView, count_keyed, count_local,
    custom_upsert, custom_updated, custom_new, display_name, first_keyed, first_local,
    hosted_configure, hosted_id, is_local_table, keyed, lemma_count_none, lemma_count_push,
    lemma_count_some, lemma_count_update, lemma_first_keyed_unique, is_first_keyed, lemma_first_keyed_exists, lemma_first_local_exists,
    local_upsert, merged_names, none_keyed, none_local, threshold_edits, tier_set, tiers_distinct,
};
use crate::setup_steps::tier_default_spec;

verus! {

/// The connected models that `routerctl models` shows for the catalogue the
/// daemon advertises are exactly the configured provider models, in order,
/// less any whose name is itself a routing alias: the aliases the daemon puts
/// first are all filtered out.
pub proof fn law_advertised_aliases_are_not_connected(ps: Seq<(String, Vec<String>)>)
    ensures
        connected_spec(catalogue(ps).map_values(|e: (Seq<char>, Seq<char>)| e.0)) == connected_spec(
            owner_entries(ps).map_values(|e: (Seq<char>, Seq<char>)| e.0),
        ),
{
    reveal_strlit("router:fast");
    reveal_strlit("router:hard");
    reveal_strlit("router:auto");
    reveal_strlit("router:");
    let v = virtual_model_ids().map_values(|v: Seq<char>| (v, "syntrop-routerd"@));
    let vi = v.map_values(|e: (Seq<char>, Seq<char>)| e.0);
    let oi = owner_entries(ps).map_values(|e: (Seq<char>, Seq<char>)| e.0);
    assert(catalogue(ps).map_values(|e: (Seq<char>, Seq<char>)| e.0) =~= vi + oi);
    lemma_connected_concat(vi, oi);
    assert(vi =~= virtual_model_ids());
    assert(forall|k: int| 0 <= k < vi.len() ==> is_virtual_spec(#[trigger] vi[k])) by {
        assert("router:fast"@.subrange(0, 7) =~= "router:"@);
        assert("router:hard"@.subrange(0, 7) =~= "router:"@);
        assert("router:auto"@.subrange(0, 7) =~= "router:"@);
    }
    assert(connected_spec(vi) =~= Seq::<Seq<char>>::empty()) by {
        lemma_all_virtual_filtered(vi);
    }
    assert(connected_spec(vi) + connected_spec(oi) =~= connected_spec(oi));
}

proof fn lemma_all_virtual_filtered(s: Seq<Seq<char>>)
    requires
        forall|k: int| 0 <= k < s.len() ==> is_virtual_spec(#[trigger] s[k]),
    ensures
        connected_spec(s) == Seq::<Seq<char>>::empty(),
    decreases s.len(),
{
    if s.len() > 0 {
        assert(is_virtual_spec(s[s.len() - 1]));
        lemma_all_virtual_filtered(s.drop_last());
        assert(connected_spec(s) =~= Seq::<Seq<char>>::empty());
    }
}

/// Every name that `routerctl` hides as a routing alias is one the scoring
/// engine treats as a request for the router to choose, so the hidden names
/// stay valid request targets.
pub proof fn law_virtual_models_route_by_tier(name: Seq<char>)
    requires
        is_virtual_spec(name),
    ensures
        is_router_alias_spec(name),
{
}

/// Registering a custom provider again never adds a second table for it:
/// the tables going by its id become one where there were none and stay as
/// many as they were otherwise, provided the table rewritten keeps going by
/// that id (it has an `id`, or its new display name is that id).
pub proof fn law_custom_provider_never_duplicates(s: Seq<ProviderView>, e: ProviderEntry)
    requires
        !none_keyed(s, e.id) ==> (s[first_keyed(s, e.id)].id is Some || display_name(e.id, e.name)
            == e.id),
    ensures
        count_keyed(custom_upsert(s, e), e.id) == if count_keyed(s, e.id) == 0 {
            1
        } else {
            count_keyed(s, e.id)
        },
{
    let p = |t: ProviderView| keyed(t, e.id);
    if none_keyed(s, e.id) {
        lemma_count_none(s, p);
        lemma_count_push(s, custom_new(e), p);
    } else {
        lemma_first_keyed_exists(s, e.id);
        let i = first_keyed(s, e.id);
        lemma_count_some(s, p, i);
        lemma_count_update(s, i, custom_updated(s[i], e), p);
    }
}

/// Registering the same custom provider twice leaves the tables as the first
/// registration left them, provided the table rewritten keeps going by its
/// id (it has an `id`, or its new display name is that id).
pub proof fn law_custom_provider_settles(s: Seq<ProviderView>, e: ProviderEntry)
    requires
        !none_keyed(s, e.id) ==> (s[first_keyed(s, e.id)].id is Some || display_name(e.id, e.name)
            == e.id),
    ensures
        custom_upsert(custom_upsert(s, e), e) == custom_upsert(s, e),
{
    let s1 = custom_upsert(s, e);
    if none_keyed(s, e.id) {
        let n = s.len() as int;
        assert(keyed(s1[n], e.id));
        assert forall|j: int| 0 <= j < n implies !keyed(#[trigger] s1[j], e.id) by {
            assert(s1[j] == s[j]);
        }
        assert(is_first_keyed(s1, e.id, n));
        lemma_first_keyed_unique(s1, e.id, n);
        assert(custom_updated(s1[n], e) == s1[n]);
        assert(custom_upsert(s1, e) =~= s1);
    } else {
        lemma_first_keyed_exists(s, e.id);
        let i = first_keyed(s, e.id);
        assert(keyed(s1[i], e.id));
        assert forall|j: int| 0 <= j < i implies !keyed(#[trigger] s1[j], e.id) by {
            assert(s1[j] == s[j]);
        }
        assert(is_first_keyed(s1, e.id, i));
        lemma_first_keyed_unique(s1, e.id, i);
        assert(custom_updated(s1[i], e) == s1[i]);
        assert(custom_upsert(s1, e) =~= s1);
    }
}

/// Configuring a hosted provider never adds a second table for it: one is
/// added only where none goes by its id and a live key was found.
pub proof fn law_hosted_provider_never_duplicates(
    s: Seq<ProviderView>,
    h: HostedProvider,
    key: Option<Seq<char>>,
    models: Option<Seq<Seq<char>>>,
)
    ensures
        count_keyed(hosted_configure(s, h, key, models), hosted_id(h)) == if count_keyed(
            s,
            hosted_id(h),
        ) == 0 && key is Some {
            1
        } else {
            count_keyed(s, hosted_id(h))
        },
{
    let p = |t: ProviderView| keyed(t, hosted_id(h));
    if none_keyed(s, hosted_id(h)) {
        lemma_count_none(s, p);
        match key {
            Some(k) => {
                lemma_count_push(s, crate::setup::hosted_new(h, k, models), p);
            },
            None => {},
        }
    } else {
        lemma_first_keyed_exists(s, hosted_id(h));
        let i = first_keyed(s, hosted_id(h));
        lemma_count_some(s, p, i);
        lemma_count_update(s, i, crate::setup::hosted_updated(s[i], h, key, models), p);
    }
}

/// Registering model files leaves exactly as many local broker tables as
/// there were, and one where there was none.
pub proof fn law_local_broker_single_table(s: Seq<ProviderView>, names: Seq<Seq<char>>, enabled: bool)
    ensures
        count_local(local_upsert(s, names, enabled)) == if count_local(s) == 0 {
            1
        } else {
            count_local(s)
        },
{
    let p = |t: ProviderView| is_local_table(t);
    if none_local(s) {
        lemma_count_none(s, p);
        reveal_strlit("syntrop-local");
        lemma_count_push(
            s,
            crate::setup::local_merged(crate::setup::local_new(enabled), names, enabled),
            p,
        );
    } else {
        lemma_first_local_exists(s);
        let i = first_local(s);
        lemma_count_some(s, p, i);
        lemma_count_update(s, i, crate::setup::local_merged(s[i], names, enabled), p);
    }
}

/// No name is listed twice.
pub open spec fn names_distinct(v: Seq<Option<Seq<char>>>) -> bool {
    forall|i: int, j: int| 0 <= i < j < v.len() && v[i] is Some ==> v[i] != v[j]
}

/// Merging model names into a list that lists none twice keeps it so, keeps
/// what was listed in place, lists every name merged, and merging the same
/// names again changes nothing.
pub proof fn law_merged_models_never_duplicate(v: Seq<Option<Seq<char>>>, names: Seq<Seq<char>>)
    requires
        names_distinct(v),
    ensures
        names_distinct(merged_names(v, names)),
        merged_names(v, names).len() >= v.len(),
        merged_names(v, names).subrange(0, v.len() as int) == v,
        forall|k: int| 0 <= k < names.len() ==> merged_names(v, names).contains(Some(names[k])),
        merged_names(merged_names(v, names), names) == merged_names(v, names),
    decreases names.len(),
{
    if names.len() > 0 {
        let d = names.drop_last();
        law_merged_models_never_duplicate(v, d);
        let prev = merged_names(v, d);
        let x = names.last();
        let m = merged_names(v, names);
        if !prev.contains(Some(x)) {
            assert(m == prev.push(Some(x)));
            assert forall|i: int, j: int| 0 <= i < j < m.len() && m[i] is Some implies m[i] != m[j] by {
                if j == m.len() - 1 && m[i] == m[j] {
                    assert(prev[i] == Some(x));
                }
            }
            assert(m.subrange(0, v.len() as int) =~= prev.subrange(0, v.len() as int));
        }
        assert forall|k: int| 0 <= k < names.len() implies m.contains(Some(names[k])) by {
            if k < names.len() - 1 {
                assert(d[k] == names[k]);
                let w = choose|w: int| 0 <= w < prev.len() && prev[w] == Some(d[k]);
                assert(m[w] == prev[w]);
            } else if !prev.contains(Some(x)) {
                assert(m[m.len() - 1] == Some(x));
            }
        }
        lemma_merge_listed_is_identity(m, names);
    }
}

/// Merging names that are all listed already changes nothing.
proof fn lemma_merge_listed_is_identity(m: Seq<Option<Seq<char>>>, names: Seq<Seq<char>>)
    requires
        forall|k: int| 0 <= k < names.len() ==> m.contains(Some(names[k])),
    ensures
        merged_names(m, names) == m,
    decreases names.len(),
{
    if names.len() > 0 {
        let d = names.drop_last();
        assert forall|k: int| 0 <= k < d.len() implies m.contains(Some(d[k])) by {
            assert(d[k] == names[k]);
        }
        lemma_merge_listed_is_identity(m, d);
        assert(m.contains(Some(names[names.len() - 1])));
    }
}

/// Completing the thresholds twice makes no further change the second time.
pub proof fn law_thresholds_settle(section: Section, has_min: bool)
    ensures
        threshold_edits(
            if section == Section::Absent {
                Section::Present
            } else {
                section
            },
            section != Section::Other,
        ) == Seq::<crate::setup::DocEdit>::empty(),
{
    assert(threshold_edits(
        if section == Section::Absent {
            Section::Present
        } else {
            section
        },
        section != Section::Other,
    ) =~= Seq::<crate::setup::DocEdit>::empty());
}

/// A tier's default reads back as the model last pinned to it, and pinning
/// one tier leaves every other tier's default as it was.
pub proof fn law_tier_default_reads_back(
    ts: Seq<TierView>,
    tier: Seq<char>,
    model: Seq<char>,
    other: Seq<char>,
)
    requires
        tiers_distinct(ts),
    ensures
        tiers_distinct(tier_set(ts, tier, model)),
        tier_default_spec(tier_set(ts, tier, model), tier) == Some(model),
        other != tier ==> tier_default_spec(tier_set(ts, tier, model), other) == tier_default_spec(
            ts,
            other,
        ),
{
    let r = tier_set(ts, tier, model);
    if exists|i: int| 0 <= i < ts.len() && ts[i].name == tier {
        let i = choose|i: int| 0 <= i < ts.len() && ts[i].name == tier;
        assert(r[i].name == tier);
        let c = choose|k: int| 0 <= k < r.len() && r[k].name == tier;
        assert(c == i);
        if other != tier {
            if exists|k: int| 0 <= k < ts.len() && ts[k].name == other {
                let a = choose|k: int| 0 <= k < ts.len() && ts[k].name == other;
                assert(r[a].name == other);
                let b = choose|k: int| 0 <= k < r.len() && r[k].name == other;
                assert(b == a);
            } else {
                assert forall|k: int| 0 <= k < r.len() implies r[k].name != other by {
                    assert(r[k].name == ts[k].name);
                }
            }
        }
    } else {
        assert forall|a: int, b: int| 0 <= a < b < r.len() implies r[a].name != r[b].name by {
            if b == r.len() - 1 {
                assert(r[a] == ts[a]);
            } else {
                assert(r[a] == ts[a] && r[b] == ts[b]);
            }
        }
        assert(r[r.len() - 1].name == tier);
        let c = choose|k: int| 0 <= k < r.len() && r[k].name == tier;
        assert(c == r.len() - 1);
        if other != tier {
            if exists|k: int| 0 <= k < ts.len() && ts[k].name == other {
                let a = choose|k: int| 0 <= k < ts.len() && ts[k].name == other;
                assert(r[a] == ts[a]);
                let b = choose|k: int| 0 <= k < r.len() && r[k].name == other;
                assert(b == a);
            } else {
                assert forall|k: int| 0 <= k < r.len() implies r[k].name != other by {
                    if k < ts.len() {
                        assert(r[k] == ts[k]);
                    }
                }
            }
        }
    }
}

} // verus!
