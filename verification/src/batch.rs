//! Batch-load outcomes and their merge into a name-keyed cache.
//!
//! A batch load fans out one loading task per file and fans back in with
//! one [`LoadOutcome`] per task. Merging inserts every loaded pair into
//! the destination cache in completion order — a later outcome for the
//! same name overwrites an earlier one — and collects one diagnostic per
//! failed file, so a failure never aborts its siblings.

use vstd::prelude::*;
use vstd::hash_map::StringHashMap;
use vstd::pervasive::arbitrary;

verus! {

/// What one loading task produced: the derived asset name with the loaded
/// handle, or the path of the file whose load failed.
pub enum LoadOutcome<V> {
    Loaded(String, V),
    Failed(String),
}

/// The cache map after merging `s` into `m`, front to back: every loaded
/// pair is inserted under its name (the last writer for a name wins) and
/// failures leave the map as it is.
pub open spec fn merged<V>(m: Map<Seq<char>, V>, s: Seq<LoadOutcome<V>>) -> Map<Seq<char>, V>
    decreases s.len(),
{
    if s.len() == 0 {
        m
    } else {
        let prev = merged(m, s.drop_last());
        match s.last() {
            LoadOutcome::Loaded(n, v) => prev.insert(n@, v),
            LoadOutcome::Failed(_) => prev,
        }
    }
}

/// The paths of the failed outcomes of `s`, in order: one diagnostic per
/// failed file.
pub open spec fn failed_paths<V>(s: Seq<LoadOutcome<V>>) -> Seq<Seq<char>>
    decreases s.len(),
{
    if s.len() == 0 {
        Seq::empty()
    } else {
        let prev = failed_paths(s.drop_last());
        match s.last() {
            LoadOutcome::Loaded(_, _) => prev,
            LoadOutcome::Failed(p) => prev.push(p@),
        }
    }
}

/// The set of names under which `s` loaded something.
pub open spec fn loaded_names<V>(s: Seq<LoadOutcome<V>>) -> Set<Seq<char>>
    decreases s.len(),
{
    if s.len() == 0 {
        Set::empty()
    } else {
        let prev = loaded_names(s.drop_last());
        match s.last() {
            LoadOutcome::Loaded(n, _) => prev.insert(n@),
            LoadOutcome::Failed(_) => prev,
        }
    }
}

/// How many outcomes of `s` loaded.
pub open spec fn loaded_count<V>(s: Seq<LoadOutcome<V>>) -> int
    decreases s.len(),
{
    if s.len() == 0 {
        0
    } else {
        loaded_count(s.drop_last()) + match s.last() {
            LoadOutcome::Loaded(_, _) => 1int,
            LoadOutcome::Failed(_) => 0int,
        }
    }
}

/// The name of a loaded outcome.
pub open spec fn name_of<V>(o: LoadOutcome<V>) -> Seq<char> {
    match o {
        LoadOutcome::Loaded(n, _) => n@,
        LoadOutcome::Failed(_) => arbitrary(),
    }
}

/// The handle of a loaded outcome.
pub open spec fn value_of<V>(o: LoadOutcome<V>) -> V {
    match o {
        LoadOutcome::Loaded(_, v) => v,
        LoadOutcome::Failed(_) => arbitrary(),
    }
}

/// True when `o` loaded the handle `v` under the name `name`.
pub open spec fn loaded_as<V>(o: LoadOutcome<V>, name: Seq<char>, v: V) -> bool {
    match o {
        LoadOutcome::Loaded(n, w) => n@ == name && w == v,
        LoadOutcome::Failed(_) => false,
    }
}

/// The views of a vector of owned diagnostics.
pub open spec fn views_of(s: Seq<String>) -> Seq<Seq<char>> {
    s.map_values(|p: String| p@)
}

/// Merges the outcomes of one batch into `cache`, in order, and hands
/// back the diagnostics: the paths of the files whose loads failed.
pub fn merge_outcomes<V>(cache: &mut StringHashMap<V>, outcomes: Vec<LoadOutcome<V>>) -> (failed:
    Vec<String>)
    ensures
        final(cache)@ == merged(old(cache)@, outcomes@),
        views_of(failed@) == failed_paths(outcomes@),
{
    let ghost all = outcomes@;
    let ghost m0 = cache@;
    let mut rest = outcomes;
    let mut failed: Vec<String> = Vec::new();
    let ghost mut i: int = 0;
    proof {
        assert(views_of(failed@) =~= failed_paths(all.take(0)));
    }
    while rest.len() > 0
        invariant
            0 <= i <= all.len(),
            rest@ == all.skip(i),
            cache@ == merged(m0, all.take(i)),
            views_of(failed@) == failed_paths(all.take(i)),
        decreases rest@.len(),
    {
        let item = rest.remove(0);
        proof {
            assert(item == all[i]);
            assert(rest@ =~= all.skip(i + 1));
            assert(all.take(i + 1).drop_last() =~= all.take(i));
            assert(all.take(i + 1).last() == all[i]);
        }
        match item {
            LoadOutcome::Loaded(name, v) => {
                cache.insert(name, v);
                proof {
                    assert(views_of(failed@) =~= failed_paths(all.take(i + 1)));
                }
            },
            LoadOutcome::Failed(path) => {
                let ghost p = path@;
                failed.push(path);
                proof {
                    assert(views_of(failed@) =~= failed_paths(all.take(i)).push(p));
                }
            },
        }
        proof {
            i = i + 1;
        }
    }
    proof {
        assert(all.take(all.len() as int) =~= all);
    }
    failed
}

/// Merging adds to the cache's key set exactly the names that loaded.
pub proof fn lemma_merged_dom<V>(m: Map<Seq<char>, V>, s: Seq<LoadOutcome<V>>)
    ensures
        merged(m, s).dom() == m.dom() + loaded_names(s),
    decreases s.len(),
{
    if s.len() == 0 {
        assert(merged(m, s).dom() =~= m.dom() + loaded_names(s));
    } else {
        lemma_merged_dom(m, s.drop_last());
        assert(merged(m, s).dom() =~= m.dom() + loaded_names(s));
    }
}

pub proof fn lemma_loaded_names_finite<V>(s: Seq<LoadOutcome<V>>)
    ensures
        loaded_names(s).finite(),
    decreases s.len(),
{
    if s.len() > 0 {
        lemma_loaded_names_finite(s.drop_last());
    }
}

/// A name in the loaded-name set comes from some loaded outcome.
pub proof fn lemma_loaded_names_member<V>(s: Seq<LoadOutcome<V>>, k: Seq<char>)
    requires
        loaded_names(s).contains(k),
    ensures
        exists|i: int| 0 <= i < s.len() && s[i] is Loaded && name_of(s[i]) == k,
    decreases s.len(),
{
    if s.len() > 0 {
        match s.last() {
            LoadOutcome::Loaded(n, _) => {
                if n@ == k {
                    assert(s[s.len() - 1] is Loaded && name_of(s[s.len() - 1]) == k);
                } else {
                    lemma_loaded_names_member(s.drop_last(), k);
                    let i0 = choose|i: int|
                        0 <= i < s.len() - 1 && s.drop_last()[i] is Loaded && name_of(
                            s.drop_last()[i],
                        ) == k;
                    assert(s[i0] is Loaded && name_of(s[i0]) == k);
                }
            },
            LoadOutcome::Failed(_) => {
                lemma_loaded_names_member(s.drop_last(), k);
                let i0 = choose|i: int|
                    0 <= i < s.len() - 1 && s.drop_last()[i] is Loaded && name_of(
                        s.drop_last()[i],
                    ) == k;
                assert(s[i0] is Loaded && name_of(s[i0]) == k);
            },
        }
    }
}

/// Every entry of a merged cache either survived untouched from the map
/// merged into, or is the handle of one of the batch's loaded outcomes
/// under that name — whichever of the colliding loads the merge order let
/// win.
pub proof fn lemma_merged_value_source<V>(
    m: Map<Seq<char>, V>,
    s: Seq<LoadOutcome<V>>,
    k: Seq<char>,
)
    requires
        merged(m, s).contains_key(k),
    ensures
        (m.contains_key(k) && merged(m, s)[k] == m[k] && !loaded_names(s).contains(k)) || (
        exists|i: int| 0 <= i < s.len() && loaded_as(s[i], k, merged(m, s)[k])),
    decreases s.len(),
{
    if s.len() > 0 {
        let s0 = s.drop_last();
        match s.last() {
            LoadOutcome::Loaded(n, v) => {
                if n@ == k {
                    assert(loaded_as(s[s.len() - 1], k, merged(m, s)[k]));
                } else {
                    lemma_merged_value_source(m, s0, k);
                    if !(m.contains_key(k) && merged(m, s0)[k] == m[k] && !loaded_names(
                        s0,
                    ).contains(k)) {
                        let i0 = choose|i: int|
                            0 <= i < s0.len() && loaded_as(s0[i], k, merged(m, s0)[k]);
                        assert(loaded_as(s[i0], k, merged(m, s)[k]));
                    }
                }
            },
            LoadOutcome::Failed(_) => {
                lemma_merged_value_source(m, s0, k);
                if !(m.contains_key(k) && merged(m, s0)[k] == m[k] && !loaded_names(s0).contains(
                    k,
                )) {
                    let i0 = choose|i: int|
                        0 <= i < s0.len() && loaded_as(s0[i], k, merged(m, s0)[k]);
                    assert(loaded_as(s[i0], k, merged(m, s)[k]));
                }
            },
        }
    }
}

/// Loaded and failed outcomes together account for the whole batch.
pub proof fn lemma_outcome_counts<V>(s: Seq<LoadOutcome<V>>)
    ensures
        loaded_count(s) + failed_paths(s).len() == s.len(),
        0 <= loaded_count(s) <= s.len(),
    decreases s.len(),
{
    if s.len() > 0 {
        lemma_outcome_counts(s.drop_last());
    }
}

/// A batch whose loads all succeed, under pairwise distinct names, fills
/// an empty cache with exactly one entry per file, each holding the
/// handle that loaded under its name.
pub proof fn lemma_batch_load_complete<V>(s: Seq<LoadOutcome<V>>)
    requires
        forall|i: int| 0 <= i < s.len() ==> s[i] is Loaded,
        forall|i: int, j: int| 0 <= i < j < s.len() ==> name_of(s[i]) != name_of(s[j]),
    ensures
        merged(Map::<Seq<char>, V>::empty(), s).dom() == loaded_names(s),
        merged(Map::<Seq<char>, V>::empty(), s).len() == s.len(),
        forall|i: int|
            0 <= i < s.len() ==> merged(Map::<Seq<char>, V>::empty(), s)[name_of(s[i])]
                == value_of(s[i]),
{
    lemma_batch_partial_failure(s);
    lemma_outcome_counts(s);
    lemma_all_loaded_count(s);
    assert forall|i: int| 0 <= i < s.len() implies merged(
        Map::<Seq<char>, V>::empty(),
        s,
    )[name_of(s[i])] == value_of(s[i]) by {
        lemma_merged_pins_loaded(s, i);
    }
}

/// A batch whose outcomes all loaded counts as many loads as files.
pub proof fn lemma_all_loaded_count<V>(s: Seq<LoadOutcome<V>>)
    requires
        forall|i: int| 0 <= i < s.len() ==> s[i] is Loaded,
    ensures
        loaded_count(s) == s.len(),
    decreases s.len(),
{
    if s.len() > 0 {
        lemma_all_loaded_count(s.drop_last());
    }
}

/// After merging, the name of the outcome at `i` maps to its handle,
/// provided no later outcome loaded under the same name.
pub proof fn lemma_merged_pins_loaded<V>(s: Seq<LoadOutcome<V>>, i: int)
    requires
        0 <= i < s.len(),
        s[i] is Loaded,
        forall|j: int| i < j < s.len() && s[j] is Loaded ==> name_of(s[j]) != name_of(s[i]),
    ensures
        merged(Map::<Seq<char>, V>::empty(), s).contains_key(name_of(s[i])),
        merged(Map::<Seq<char>, V>::empty(), s)[name_of(s[i])] == value_of(s[i]),
    decreases s.len(),
{
    let m0 = Map::<Seq<char>, V>::empty();
    lemma_merged_dom(m0, s);
    if i == s.len() - 1 {
    } else {
        lemma_merged_pins_loaded(s.drop_last(), i);
    }
}

/// A batch with failures among its outcomes still merges every loaded
/// entry, and only those: the cache gains exactly the loaded names — as
/// many entries as loads succeeded, when their names are distinct — and
/// one diagnostic per failed file is handed back.
pub proof fn lemma_batch_partial_failure<V>(s: Seq<LoadOutcome<V>>)
    requires
        forall|i: int, j: int|
            0 <= i < j < s.len() && s[i] is Loaded && s[j] is Loaded ==> name_of(s[i]) != name_of(
                s[j],
            ),
    ensures
        merged(Map::<Seq<char>, V>::empty(), s).dom() == loaded_names(s),
        merged(Map::<Seq<char>, V>::empty(), s).len() == loaded_count(s),
        failed_paths(s).len() == s.len() - loaded_count(s),
    decreases s.len(),
{
    let m0 = Map::<Seq<char>, V>::empty();
    lemma_merged_dom(m0, s);
    assert(merged(m0, s).dom() =~= loaded_names(s));
    lemma_outcome_counts(s);
    if s.len() == 0 {
    } else {
        let s0 = s.drop_last();
        lemma_batch_partial_failure(s0);
        lemma_loaded_names_finite(s0);
        lemma_merged_dom(m0, s0);
        assert(merged(m0, s0).dom() =~= loaded_names(s0));
        match s.last() {
            LoadOutcome::Loaded(n, v) => {
                if loaded_names(s0).contains(n@) {
                    lemma_loaded_names_member(s0, n@);
                    let i0 = choose|i: int|
                        0 <= i < s0.len() && s0[i] is Loaded && name_of(s0[i]) == n@;
                    assert(name_of(s[i0]) == name_of(s[s.len() - 1]));
                    assert(false);
                }
                vstd::set::axiom_set_insert_len(merged(m0, s0).dom(), n@);
            },
            LoadOutcome::Failed(_) => {
            },
        }
    }
}

/// However many concurrent loads complete under one derived name, the
/// merged cache holds exactly one entry for it — a map key is unique —
/// and its handle is one of those that loaded under that name; which one
/// is left open, as completion order is.
pub proof fn lemma_collision_single_entry<V>(s: Seq<LoadOutcome<V>>, k: Seq<char>)
    requires
        loaded_names(s).contains(k),
    ensures
        merged(Map::<Seq<char>, V>::empty(), s).contains_key(k),
        exists|i: int|
            0 <= i < s.len() && loaded_as(s[i], k, merged(Map::<Seq<char>, V>::empty(), s)[k]),
{
    let m0 = Map::<Seq<char>, V>::empty();
    lemma_merged_dom(m0, s);
    assert(merged(m0, s).dom() =~= loaded_names(s));
    lemma_merged_value_source(m0, s, k);
}

} // verus!
