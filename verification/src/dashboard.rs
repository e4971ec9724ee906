//! Aggregates shown on the dashboard: agents per status and source, events
//! per severity and category, recent activity, and the most used tags.
use vstd::prelude::*;
use crate::store::Model;
use crate::strmap::{StrMap, StrSet};
use crate::model::{Agent, Event, StatusCategory, EventSeverity, severity_index, event_category_name, now_ms};
use crate::directory::{state_rank, source_key};
use crate::text::{seq_lt, str_lt, lemma_seq_lt_order};

verus! {

broadcast use vstd::string::group_string_axioms;

/// How many elements of `s` satisfy `p`.
pub open spec fn count_where<T>(s: Seq<T>, p: spec_fn(T) -> bool) -> nat
    decreases s.len(),
{
    if s.len() == 0 {
        0
    } else {
        count_where(s.drop_last(), p) + if p(s.last()) { 1nat } else { 0nat }
    }
}

proof fn lemma_count_bound<T>(s: Seq<T>, p: spec_fn(T) -> bool)
    ensures
        count_where(s, p) <= s.len(),
    decreases s.len(),
{
    if s.len() > 0 {
        lemma_count_bound(s.drop_last(), p);
    }
}

/// How many elements of `s` have key `k`.
pub open spec fn count_key<T>(s: Seq<T>, key: spec_fn(T) -> Seq<char>, k: Seq<char>) -> nat
    decreases s.len(),
{
    if s.len() == 0 {
        0
    } else {
        count_key(s.drop_last(), key, k) + if key(s.last()) == k { 1nat } else { 0nat }
    }
}

proof fn lemma_count_key_bound<T>(s: Seq<T>, key: spec_fn(T) -> Seq<char>, k: Seq<char>)
    ensures
        count_key(s, key, k) <= s.len(),
    decreases s.len(),
{
    if s.len() > 0 {
        lemma_count_key_bound(s.drop_last(), key, k);
    }
}

/// For each key, how many elements of `s` have it; keys of no element are absent.
pub open spec fn key_counts<T>(s: Seq<T>, key: spec_fn(T) -> Seq<char>) -> Map<Seq<char>, nat> {
    Map::new(|k: Seq<char>| count_key(s, key, k) > 0, |k: Seq<char>| count_key(s, key, k))
}

proof fn lemma_key_count_bound<T>(s: Seq<T>, key: spec_fn(T) -> Seq<char>, k: Seq<char>)
    ensures
        key_counts(s, key).dom().contains(k) ==> key_counts(s, key)[k] <= s.len(),
        key_counts(s, key).dom().contains(k) ==> key_counts(s, key)[k] == count_key(s, key, k),
{
    lemma_count_key_bound(s, key, k);
}

/// A count map by its numbers.
pub open spec fn nat_map(m: StrMap<usize>) -> Map<Seq<char>, nat> {
    Map::new(|k: Seq<char>| m.map().dom().contains(k), |k: Seq<char>| m.map()[k] as nat)
}

proof fn lemma_key_counts_push<T>(s: Seq<T>, key: spec_fn(T) -> Seq<char>, x: T)
    ensures
        key_counts(s.push(x), key) == key_counts(s, key).insert(key(x),
            if key_counts(s, key).dom().contains(key(x)) { key_counts(s, key)[key(x)] + 1 } else { 1 }),
{
    assert(s.push(x).drop_last() =~= s);
    let a = key_counts(s.push(x), key);
    let b = key_counts(s, key).insert(key(x),
            if key_counts(s, key).dom().contains(key(x)) { key_counts(s, key)[key(x)] + 1 } else { 1 });
    assert forall|k: Seq<char>| #[trigger] a.dom().contains(k) <==> b.dom().contains(k) by {
        assert(count_key(s.push(x), key, k) == count_key(s, key, k) + if key(x) == k { 1nat } else { 0nat });
    }
    assert forall|k: Seq<char>| a.dom().contains(k) implies #[trigger] a[k] == b[k] by {
        assert(count_key(s.push(x), key, k) == count_key(s, key, k) + if key(x) == k { 1nat } else { 0nat });
    }
    assert(a =~= b);
}

/// Adds one to the count of `k`.
fn bump(m: &mut StrMap<usize>, k: &str)
    requires
        old(m).wf(),
        old(m).map().dom().contains(k@) ==> old(m).map()[k@] < usize::MAX,
    ensures
        final(m).wf(),
        nat_map(*final(m)) == nat_map(*old(m)).insert(k@,
            if nat_map(*old(m)).dom().contains(k@) { nat_map(*old(m))[k@] + 1 } else { 1 }),
{
    let ghost o = *m;
    let c = match m.get(k) {
        Some(v) => *v + 1,
        None => 1,
    };
    m.insert(k.to_owned(), c);
    assert(nat_map(*m) =~= nat_map(o).insert(k@, if nat_map(o).dom().contains(k@) { nat_map(o)[k@] + 1 } else { 1 }));
}

/// The agents of a directory.
pub open spec fn agents_of(vals: Seq<(String, Agent)>) -> Seq<Agent> {
    Seq::new(vals.len(), |i: int| vals[i].1)
}

/// Number of agents per status rank at time `now`.
fn status_counts_at(vals: &Vec<(String, Agent)>, now: i64) -> (r: Vec<usize>)
    ensures
        r@.len() == 6,
        forall|k: int| 0 <= k < 6 ==> #[trigger] r@[k] as nat == count_where(agents_of(vals@), |a: Agent| state_rank(a, now as int) == k),
{
    let ghost all = agents_of(vals@);
    let mut c: Vec<usize> = vec![0, 0, 0, 0, 0, 0];
    let mut i: usize = 0;
    while i < vals.len()
        invariant
            all == agents_of(vals@),
            i <= vals.len(),
            c@.len() == 6,
            forall|k: int| 0 <= k < 6 ==> #[trigger] c@[k] as nat == count_where(all.take(i as int), |a: Agent| state_rank(a, now as int) == k),
        decreases vals.len() - i,
    {
        let a = &vals[i].1;
        let r = StatusCategory::from_agent_at(a, now).rank() as usize;
        proof {
            assert(all.take(i + 1).drop_last() =~= all.take(i as int));
            assert(all.take(i + 1).last() == *a);
            lemma_count_bound(all.take(i as int), |a: Agent| state_rank(a, now as int) == r);
        }
        let v = c[r] + 1;
        c.set(r, v);
        i += 1;
    }
    assert(all.take(vals.len() as int) =~= all);
    c
}

/// Number of agents per source ("unknown" when absent).
fn source_counts(vals: &Vec<(String, Agent)>) -> (r: StrMap<usize>)
    ensures
        r.wf(),
        nat_map(r) == key_counts(agents_of(vals@), |a: Agent| source_key(a)),
{
    let ghost all = agents_of(vals@);
    let ghost f = |a: Agent| source_key(a);
    let mut m: StrMap<usize> = StrMap::new();
    assert(nat_map(m) =~= key_counts(all.take(0), f));
    let mut i: usize = 0;
    while i < vals.len()
        invariant
            all == agents_of(vals@),
            f == |a: Agent| source_key(a),
            i <= vals.len(),
            m.wf(),
            nat_map(m) == key_counts(all.take(i as int), f),
        decreases vals.len() - i,
    {
        let a = &vals[i].1;
        proof {
            assert(all.take(i + 1) =~= all.take(i as int).push(*a));
            lemma_key_counts_push(all.take(i as int), f, *a);
            let key = source_key(*a);
            lemma_key_count_bound(all.take(i as int), f, key);
            if m.map().dom().contains(key) {
                assert(nat_map(m).dom().contains(key));
                assert(nat_map(m)[key] == m.map()[key] as nat);
            }
        }
        bump(&mut m, crate::model::opt_str(&a.source, "unknown"));
        i += 1;
    }
    assert(all.take(vals.len() as int) =~= all);
    m
}

/// Number of events per category name.
fn category_counts(events: &Vec<Event>) -> (r: StrMap<usize>)
    ensures
        r.wf(),
        nat_map(r) == key_counts(events@, |e: Event| event_category_name(e.category)),
{
    let ghost f = |e: Event| event_category_name(e.category);
    let mut m: StrMap<usize> = StrMap::new();
    assert(nat_map(m) =~= key_counts(events@.take(0), f));
    let mut i: usize = 0;
    while i < events.len()
        invariant
            f == |e: Event| event_category_name(e.category),
            i <= events.len(),
            m.wf(),
            nat_map(m) == key_counts(events@.take(i as int), f),
        decreases events.len() - i,
    {
        let e = &events[i];
        proof {
            assert(events@.take(i + 1) =~= events@.take(i as int).push(*e));
            lemma_key_counts_push(events@.take(i as int), f, *e);
            let key = event_category_name(e.category);
            lemma_key_count_bound(events@.take(i as int), f, key);
            if m.map().dom().contains(key) {
                assert(nat_map(m).dom().contains(key));
                assert(nat_map(m)[key] == m.map()[key] as nat);
            }
        }
        bump(&mut m, e.category.as_str());
        i += 1;
    }
    assert(events@.take(events.len() as int) =~= events@);
    m
}

/// Number of events per severity (Info, Warn, Error) and of events of the
/// last minute before `now`.
fn event_counts(events: &Vec<Event>, now: i64) -> (r: (Vec<usize>, usize))
    ensures
        r.0@.len() == 3,
        forall|k: int| 0 <= k < 3 ==> #[trigger] r.0@[k] as nat == count_where(events@, |e: Event| severity_index(e.severity) == k),
        r.1 as nat == count_where(events@, |e: Event| e.timestamp_ms > now as int - 60000),
{
    let cutoff: i128 = now as i128 - 60000;
    let mut c: Vec<usize> = vec![0, 0, 0];
    let mut recent: usize = 0;
    let mut i: usize = 0;
    while i < events.len()
        invariant
            i <= events.len(),
            cutoff == now as int - 60000,
            c@.len() == 3,
            forall|k: int| 0 <= k < 3 ==> #[trigger] c@[k] as nat == count_where(events@.take(i as int), |e: Event| severity_index(e.severity) == k),
            recent as nat == count_where(events@.take(i as int), |e: Event| e.timestamp_ms > now as int - 60000),
        decreases events.len() - i,
    {
        let e = &events[i];
        let k = e.severity.index();
        proof {
            assert(events@.take(i + 1).drop_last() =~= events@.take(i as int));
            assert(events@.take(i + 1).last() == *e);
            lemma_count_bound(events@.take(i as int), |e: Event| severity_index(e.severity) == k);
            lemma_count_bound(events@.take(i as int), |e: Event| e.timestamp_ms > now as int - 60000);
        }
        let v = c[k] + 1;
        c.set(k, v);
        if (e.timestamp_ms as i128) > cutoff {
            recent = recent + 1;
        }
        i += 1;
    }
    assert(events@.take(events.len() as int) =~= events@);
    (c, recent)
}


proof fn lemma_count_concat(a: Seq<Seq<char>>, b: Seq<Seq<char>>, t: Seq<char>)
    ensures
        count_key(a + b, |x: Seq<char>| x, t) == count_key(a, |x: Seq<char>| x, t) + count_key(b, |x: Seq<char>| x, t),
    decreases b.len(),
{
    if b.len() > 0 {
        lemma_count_concat(a, b.drop_last(), t);
        assert((a + b).drop_last() =~= a + b.drop_last());
    } else {
        assert(a + b =~= a);
    }
}

proof fn lemma_count_absent(s: Seq<Seq<char>>, t: Seq<char>)
    requires
        !s.contains(t),
    ensures
        count_key(s, |x: Seq<char>| x, t) == 0,
    decreases s.len(),
{
    if s.len() > 0 {
        assert(!s.drop_last().contains(t)) by {
            if s.drop_last().contains(t) {
                let k = choose|k: int| 0 <= k < s.drop_last().len() && s.drop_last()[k] == t;
                assert(s[k] == t);
            }
        }
        lemma_count_absent(s.drop_last(), t);
        assert(s.last() != t) by { if s.last() == t { assert(s[s.len() - 1] == t); } }
    }
}

proof fn lemma_count_nodup(s: Seq<Seq<char>>, t: Seq<char>)
    requires
        s.no_duplicates(),
    ensures
        count_key(s, |x: Seq<char>| x, t) <= 1,
    decreases s.len(),
{
    if s.len() > 0 {
        let d = s.drop_last();
        assert(d.no_duplicates()) by {
            assert forall|a: int, b: int| 0 <= a < d.len() && 0 <= b < d.len() && a != b implies d[a] != d[b] by {
                assert(d[a] == s[a] && d[b] == s[b]);
            }
        }
        lemma_count_nodup(d, t);
        if s.last() == t {
            assert(!d.contains(t)) by {
                if d.contains(t) {
                    let k = choose|k: int| 0 <= k < d.len() && d[k] == t;
                    assert(s[k] == s[s.len() - 1]);
                }
            }
            lemma_count_absent(d, t);
        }
    }
}

proof fn lemma_flat_count(sets: Seq<StrSet>, t: Seq<char>)
    requires
        forall|i: int| 0 <= i < sets.len() ==> (#[trigger] sets[i]).wf(),
    ensures
        count_key(flat_tags(sets), |x: Seq<char>| x, t) <= sets.len(),
    decreases sets.len(),
{
    if sets.len() > 0 {
        let d = sets.drop_last();
        assert forall|i: int| 0 <= i < d.len() implies (#[trigger] d[i]).wf() by { assert(d[i] == sets[i]); }
        lemma_flat_count(d, t);
        lemma_count_concat(flat_tags(d), sets.last().item_seq(), t);
        assert(sets[sets.len() - 1].wf());
        lemma_count_nodup(sets.last().item_seq(), t);
    }
}

/// All tags of all handles, handle by handle.
pub open spec fn flat_tags(sets: Seq<StrSet>) -> Seq<Seq<char>>
    decreases sets.len(),
{
    if sets.len() == 0 { Seq::empty() } else { flat_tags(sets.drop_last()) + sets.last().item_seq() }
}

/// For each tag, the number of handles holding it.
fn count_tags(tags: &StrMap<StrSet>) -> (r: StrMap<usize>)
    requires
        crate::store::sets_wf(*tags),
    ensures
        r.wf(),
        nat_map(r) == key_counts(flat_tags(tags.value_seq()), |t: Seq<char>| t),
{
    let ghost f = |t: Seq<char>| t;
    let ghost sets = tags.value_seq();
    let mut m: StrMap<usize> = StrMap::new();
    assert(nat_map(m) =~= key_counts(flat_tags(sets.take(0)), f));
    let mut i: usize = 0;
    while i < tags.entries.len()
        invariant
            f == |t: Seq<char>| t,
            sets == tags.value_seq(),
            crate::store::sets_wf(*tags),
            i <= tags.entries.len(),
            m.wf(),
            nat_map(m) == key_counts(flat_tags(sets.take(i as int)), f),
        decreases tags.entries.len() - i,
    {
        let set = &tags.entries[i].1;
        let ghost base = flat_tags(sets.take(i as int));
        assert(sets.take(i + 1).drop_last() =~= sets.take(i as int));
        assert(sets.take(i + 1).last() == *set);
        let mut j: usize = 0;
        assert(base + set.item_seq().take(0) =~= base);
        while j < set.items.len()
            invariant
                f == |t: Seq<char>| t,
                set.wf(),
                *set == sets[i as int],
                i < tags.entries.len(),
                sets == tags.value_seq(),
                crate::store::sets_wf(*tags),
                base == flat_tags(sets.take(i as int)),
                j <= set.items.len(),
                m.wf(),
                nat_map(m) == key_counts(base + set.item_seq().take(j as int), f),
            decreases set.items.len() - j,
        {
            let t = set.items[j].as_str();
            let ghost pre = base + set.item_seq().take(j as int);
            proof {
                assert(base + set.item_seq().take(j + 1) =~= pre.push(t@));
                lemma_key_counts_push(pre, f, t@);
                lemma_key_count_bound(pre, f, t@);
                if m.map().dom().contains(t@) {
                    assert(nat_map(m).dom().contains(t@));
                    assert(nat_map(m)[t@] == m.map()[t@] as nat);
                    assert(set.item_seq()[j as int] == t@);
                    assert(!set.item_seq().take(j as int).contains(t@)) by {
                        if set.item_seq().take(j as int).contains(t@) {
                            let k = choose|k: int| 0 <= k < j && set.item_seq().take(j as int)[k] == t@;
                            assert(set.item_seq()[k] == set.item_seq()[j as int]);
                        }
                    }
                    assert(i < tags.entries.len());
                    lemma_count_concat(base, set.item_seq().take(j as int), t@);
                    lemma_flat_count(sets.take(i as int), t@);
                    lemma_count_absent(set.item_seq().take(j as int), t@);
                }
            }
            bump(&mut m, t);
            j += 1;
        }
        assert(base + set.item_seq().take(set.items.len() as int) =~= flat_tags(sets.take(i + 1)));
        i += 1;
    }
    assert(sets.take(tags.entries.len() as int) =~= sets);
    m
}

/// Tag `a` ranks above tag `b`: more holders, then alphabetical.
pub open spec fn tag_before(a: (Seq<char>, nat), b: (Seq<char>, nat)) -> bool {
    a.1 > b.1 || (a.1 == b.1 && seq_lt(a.0, b.0))
}

/// `r` is the top `k` of `counts` by `tag_before`, best first.
pub open spec fn is_top(r: Seq<(Seq<char>, nat)>, counts: Map<Seq<char>, nat>, k: nat) -> bool {
    &&& r.len() <= k
    &&& forall|i: int| 0 <= i < r.len() ==> counts.dom().contains((#[trigger] r[i]).0) && r[i].1 == counts[r[i].0]
    &&& forall|i: int, j: int| 0 <= i < j < r.len() ==> tag_before(#[trigger] r[i], #[trigger] r[j])
    &&& forall|t: Seq<char>| #[trigger] counts.dom().contains(t) ==>
        (exists|i: int| 0 <= i < r.len() && r[i].0 == t)
        || (r.len() == k && tag_before(r[r.len() - 1], (t, counts[t])))
}

pub open spec fn pairs_view(v: Seq<(String, usize)>) -> Seq<(Seq<char>, nat)> {
    Seq::new(v.len(), |i: int| (v[i].0@, v[i].1 as nat))
}

/// The five most held tags, best first (see `tag_before`).
fn top_tags(counts: &StrMap<usize>) -> (r: Vec<(String, usize)>)
    requires
        counts.wf(),
    ensures
        is_top(pairs_view(r@), nat_map(*counts), 5),
{
    proof { lemma_seq_lt_order(); }
    let n = counts.entries.len();
    let ghost e = Seq::new(n as nat, |j: int| (counts.entries@[j].0@, counts.entries@[j].1 as nat));
    let mut taken: Vec<bool> = Vec::new();
    let mut j: usize = 0;
    while j < n
        invariant
            j <= n,
            taken@.len() == j,
            forall|x: int| 0 <= x < j ==> !#[trigger] taken@[x],
        decreases n - j,
    {
        taken.push(false);
        j += 1;
    }
    let mut r: Vec<(String, usize)> = Vec::new();
    let ghost mut idx: Seq<int> = Seq::empty();
    let mut done = false;
    while r.len() < 5 && !done
        invariant
            done ==> forall|x: int| 0 <= x < n ==> #[trigger] taken@[x],
            n == counts.entries.len(),
            counts.wf(),
            e == Seq::new(n as nat, |j: int| (counts.entries@[j].0@, counts.entries@[j].1 as nat)),
            forall|a: Seq<char>, b: Seq<char>| a == b || #[trigger] seq_lt(a, b) || #[trigger] seq_lt(b, a),
            forall|a: Seq<char>| !#[trigger] seq_lt(a, a),
            forall|a: Seq<char>, b: Seq<char>, c: Seq<char>| #[trigger] seq_lt(a, b) && #[trigger] seq_lt(b, c) ==> seq_lt(a, c),
            taken@.len() == n,
            r@.len() <= 5,
            idx.len() == r@.len(),
            forall|i: int| 0 <= i < idx.len() ==> 0 <= #[trigger] idx[i] < n && taken@[idx[i]],
            forall|i: int| 0 <= i < idx.len() ==> pairs_view(r@)[i] == e[#[trigger] idx[i]],
            forall|x: int| 0 <= x < n && #[trigger] taken@[x] ==> exists|i: int| 0 <= i < idx.len() && idx[i] == x,
            forall|i: int, j: int| 0 <= i < j < r@.len() ==> tag_before(#[trigger] pairs_view(r@)[i], #[trigger] pairs_view(r@)[j]),
            r@.len() > 0 ==> forall|x: int| 0 <= x < n && !#[trigger] taken@[x] ==> tag_before(pairs_view(r@)[r@.len() - 1], e[x]),
        decreases 5 - r@.len(), if done { 0int } else { 1int },
    {
        // best untaken entry
        let mut best: Option<usize> = None;
        let mut x: usize = 0;
        while x < n
            invariant
                n == counts.entries.len(),
                e == Seq::new(n as nat, |j: int| (counts.entries@[j].0@, counts.entries@[j].1 as nat)),
                taken@.len() == n,
                x <= n,
                forall|a: Seq<char>, b: Seq<char>| a == b || #[trigger] seq_lt(a, b) || #[trigger] seq_lt(b, a),
                forall|a: Seq<char>| !#[trigger] seq_lt(a, a),
                forall|a: Seq<char>, b: Seq<char>, c: Seq<char>| #[trigger] seq_lt(a, b) && #[trigger] seq_lt(b, c) ==> seq_lt(a, c),
                match best {
                    Some(b) => b < x && !taken@[b as int]
                        && forall|y: int| 0 <= y < x && !#[trigger] taken@[y] ==> !tag_before(e[y], e[b as int]),
                    None => forall|y: int| 0 <= y < x ==> #[trigger] taken@[y],
                },
            decreases n - x,
        {
            if !taken[x] {
                match best {
                    Some(b) => {
                        let cx = counts.entries[x].1;
                        let cb = counts.entries[b].1;
                        if cx > cb || (cx == cb && str_lt(counts.entries[x].0.as_str(), counts.entries[b].0.as_str())) {
                            best = Some(x);
                        }
                    },
                    None => {
                        best = Some(x);
                    },
                }
            }
            x += 1;
        }
        match best {
            None => {
                done = true;
            },
            Some(b) => {
                proof {
                    counts.lemma_pos(b as int);
                    assert forall|y: int| 0 <= y < n && !#[trigger] taken@[y] && y != b implies tag_before(e[b as int], e[y]) by {
                        assert(counts.key_seq()[y] != counts.key_seq()[b as int]);
                    }
                }
                let ghost before_r = pairs_view(r@);
                taken.set(b, true);
                r.push((counts.entries[b].0.clone(), counts.entries[b].1));
                proof {
                    let old_idx = idx;
                    idx = idx.push(b as int);
                    assert(pairs_view(r@) =~= before_r.push(e[b as int]));
                    assert forall|x: int| 0 <= x < n && #[trigger] taken@[x] implies exists|i: int| 0 <= i < idx.len() && idx[i] == x by {
                        if x == b {
                            assert(idx[idx.len() - 1] == x);
                        } else {
                            let i = choose|i: int| 0 <= i < old_idx.len() && old_idx[i] == x;
                            assert(idx[i] == x);
                        }
                    }
                }
            },
        }
    }
    proof {
        let rv = pairs_view(r@);
        assert forall|i: int| 0 <= i < rv.len() implies nat_map(*counts).dom().contains((#[trigger] rv[i]).0)
            && rv[i].1 == nat_map(*counts)[rv[i].0] by {
            counts.lemma_pos(idx[i]);
        }
        assert forall|t: Seq<char>| #[trigger] nat_map(*counts).dom().contains(t) implies
            (exists|i: int| 0 <= i < rv.len() && rv[i].0 == t)
            || (rv.len() == 5 && tag_before(rv[rv.len() - 1], (t, nat_map(*counts)[t]))) by {
            let x = counts.pos(t);
            counts.lemma_pos(x);
            assert(e[x] == (t, nat_map(*counts)[t]));
            if taken@[x] {
                let i = choose|i: int| 0 <= i < idx.len() && idx[i] == x;
                assert(rv[i].0 == t);
            }
        }
    }
    r
}

/// Dashboard aggregates of the model.
#[derive(Debug)]
pub struct ModelSnapshot {
    pub agent_total: usize,
    /// Agents per status category, in display order.
    pub status_counts: [(StatusCategory, usize); 6],
    /// Agents per source ("unknown" when absent).
    pub source_counts: StrMap<usize>,
    pub message_total: usize,
    pub message_unread: usize,
    pub event_total: usize,
    /// [("Info", n), ("Warn", n), ("Error", n)].
    pub event_by_severity: [(String, usize); 3],
    /// Events per category name.
    pub event_by_category: StrMap<usize>,
    pub group_count: usize,
    /// Pinned agents present in the directory.
    pub pinned_count: usize,
    pub history_count: usize,
    /// Events of the last 60 seconds.
    pub event_recent_60s: usize,
    pub computed_at_ms: i64,
    /// The five most held tags with their holder counts.
    pub tag_counts: Vec<(String, usize)>,
    pub alert_rule_count: usize,
}

/// Agents whose handle is pinned.
fn pinned_in(vals: &Vec<(String, Agent)>, pinned: &StrSet) -> (r: usize)
    ensures
        r as nat == count_where(agents_of(vals@), |a: Agent| pinned.set().contains(a.handle@)),
{
    let ghost all = agents_of(vals@);
    let mut c: usize = 0;
    let mut i: usize = 0;
    while i < vals.len()
        invariant
            all == agents_of(vals@),
            i <= vals.len(),
            c as nat == count_where(all.take(i as int), |a: Agent| pinned.set().contains(a.handle@)),
        decreases vals.len() - i,
    {
        proof {
            assert(all.take(i + 1).drop_last() =~= all.take(i as int));
            assert(all.take(i + 1).last() == vals@[i as int].1);
            lemma_count_bound(all.take(i as int), |a: Agent| pinned.set().contains(a.handle@));
        }
        if pinned.contains(vals[i].1.handle.as_str()) {
            c = c + 1;
        }
        i += 1;
    }
    assert(all.take(vals.len() as int) =~= all);
    c
}

/// The dashboard aggregates of model `m` taken at time `now`.
pub open spec fn snapshot_of(m: Model, now: i64, r: ModelSnapshot) -> bool {
    &&& r.agent_total == m.directory.key_seq().len()
    &&& forall|k: int| 0 <= k < 6 ==> (#[trigger] r.status_counts@[k]).1 as nat == count_where(m.directory.value_seq(), |a: Agent| state_rank(a, now as int) == k)
    &&& r.status_counts@[0].0 == StatusCategory::Working
    &&& r.status_counts@[1].0 == StatusCategory::Waiting
    &&& r.status_counts@[2].0 == StatusCategory::Blocked
    &&& r.status_counts@[3].0 == StatusCategory::Error
    &&& r.status_counts@[4].0 == StatusCategory::Done
    &&& r.status_counts@[5].0 == StatusCategory::Unknown
    &&& r.source_counts.wf()
    &&& nat_map(r.source_counts) == key_counts(m.directory.value_seq(), |a: Agent| source_key(a))
    &&& r.message_total == 0
    &&& r.message_unread == 0
    &&& r.event_total == m.events@.len()
    &&& r.event_by_severity@[0].0@ == "Info"@
    &&& r.event_by_severity@[1].0@ == "Warn"@
    &&& r.event_by_severity@[2].0@ == "Error"@
    &&& forall|k: int| 0 <= k < 3 ==> (#[trigger] r.event_by_severity@[k]).1 as nat == count_where(m.events@, |e: Event| severity_index(e.severity) == k)
    &&& r.event_by_category.wf()
    &&& nat_map(r.event_by_category) == key_counts(m.events@, |e: Event| event_category_name(e.category))
    &&& r.group_count == m.groups.key_seq().len()
    &&& r.pinned_count as nat == count_where(m.directory.value_seq(), |a: Agent| m.pinned.set().contains(a.handle@))
    &&& r.history_count == m.history@.len()
    &&& r.event_recent_60s as nat == count_where(m.events@, |e: Event| e.timestamp_ms > now as int - 60000)
    &&& r.computed_at_ms == now
    &&& is_top(pairs_view(r.tag_counts@), key_counts(flat_tags(m.tags.value_seq()), |t: Seq<char>| t), 5)
    &&& r.alert_rule_count == m.alert_rules@.len()
}

proof fn lemma_rank_partition(s: Seq<Agent>, now: int)
    ensures
        count_where(s, |a: Agent| state_rank(a, now) == 0) + count_where(s, |a: Agent| state_rank(a, now) == 1)
            + count_where(s, |a: Agent| state_rank(a, now) == 2) + count_where(s, |a: Agent| state_rank(a, now) == 3)
            + count_where(s, |a: Agent| state_rank(a, now) == 4) + count_where(s, |a: Agent| state_rank(a, now) == 5)
            == s.len(),
    decreases s.len(),
{
    if s.len() > 0 {
        lemma_rank_partition(s.drop_last(), now);
    }
}

proof fn lemma_severity_partition(s: Seq<Event>)
    ensures
        count_where(s, |e: Event| severity_index(e.severity) == 0) + count_where(s, |e: Event| severity_index(e.severity) == 1)
            + count_where(s, |e: Event| severity_index(e.severity) == 2) == s.len(),
    decreases s.len(),
{
    if s.len() > 0 {
        lemma_severity_partition(s.drop_last());
    }
}

/// The counts of a snapshot add up: the six status counts to the number
/// of agents, the three severity counts to the number of events.
pub proof fn law_snapshot_sums(m: Model, now: i64, r: ModelSnapshot)
    requires
        snapshot_of(m, now, r),
    ensures
        r.status_counts@[0].1 + r.status_counts@[1].1 + r.status_counts@[2].1 + r.status_counts@[3].1
            + r.status_counts@[4].1 + r.status_counts@[5].1 == r.agent_total,
        r.event_by_severity@[0].1 + r.event_by_severity@[1].1 + r.event_by_severity@[2].1 == r.event_total,
{
    lemma_rank_partition(m.directory.value_seq(), now as int);
    lemma_severity_partition(m.events@);
    assert(r.status_counts@[0].1 as nat == count_where(m.directory.value_seq(), |a: Agent| state_rank(a, now as int) == 0));
    assert(r.status_counts@[1].1 as nat == count_where(m.directory.value_seq(), |a: Agent| state_rank(a, now as int) == 1));
    assert(r.status_counts@[2].1 as nat == count_where(m.directory.value_seq(), |a: Agent| state_rank(a, now as int) == 2));
    assert(r.status_counts@[3].1 as nat == count_where(m.directory.value_seq(), |a: Agent| state_rank(a, now as int) == 3));
    assert(r.status_counts@[4].1 as nat == count_where(m.directory.value_seq(), |a: Agent| state_rank(a, now as int) == 4));
    assert(r.status_counts@[5].1 as nat == count_where(m.directory.value_seq(), |a: Agent| state_rank(a, now as int) == 5));
    assert(r.event_by_severity@[0].1 as nat == count_where(m.events@, |e: Event| severity_index(e.severity) == 0));
    assert(r.event_by_severity@[1].1 as nat == count_where(m.events@, |e: Event| severity_index(e.severity) == 1));
    assert(r.event_by_severity@[2].1 as nat == count_where(m.events@, |e: Event| severity_index(e.severity) == 2));
}

/// The dashboard aggregates of `model` at time `now`.
pub fn compute_snapshot_at(model: &Model, now: i64) -> (r: ModelSnapshot)
    requires
        model.wf(),
    ensures
        r.agent_total == model.directory.key_seq().len(),
        forall|k: int| 0 <= k < 6 ==> (#[trigger] r.status_counts@[k]).1 as nat
            == count_where(model.directory.value_seq(), |a: Agent| state_rank(a, now as int) == k),
        r.status_counts@[0].0 == StatusCategory::Working,
        r.status_counts@[1].0 == StatusCategory::Waiting,
        r.status_counts@[2].0 == StatusCategory::Blocked,
        r.status_counts@[3].0 == StatusCategory::Error,
        r.status_counts@[4].0 == StatusCategory::Done,
        r.status_counts@[5].0 == StatusCategory::Unknown,
        r.source_counts.wf(),
        nat_map(r.source_counts) == key_counts(model.directory.value_seq(), |a: Agent| source_key(a)),
        r.message_total == 0,
        r.message_unread == 0,
        r.event_total == model.events@.len(),
        r.event_by_severity@[0].0@ == "Info"@,
        r.event_by_severity@[1].0@ == "Warn"@,
        r.event_by_severity@[2].0@ == "Error"@,
        forall|k: int| 0 <= k < 3 ==> (#[trigger] r.event_by_severity@[k]).1 as nat
            == count_where(model.events@, |e: Event| severity_index(e.severity) == k),
        r.event_by_category.wf(),
        nat_map(r.event_by_category) == key_counts(model.events@, |e: Event| event_category_name(e.category)),
        r.group_count == model.groups.key_seq().len(),
        r.pinned_count as nat == count_where(model.directory.value_seq(), |a: Agent| model.pinned.set().contains(a.handle@)),
        r.history_count == model.history@.len(),
        r.event_recent_60s as nat == count_where(model.events@, |e: Event| e.timestamp_ms > now as int - 60000),
        r.computed_at_ms == now,
        is_top(pairs_view(r.tag_counts@), key_counts(flat_tags(model.tags.value_seq()), |t: Seq<char>| t), 5),
        r.alert_rule_count == model.alert_rules@.len(),
{
    let vals = &model.directory.entries;
    let sc = status_counts_at(vals, now);
    let (sev, recent) = event_counts(&model.events, now);
    let counts = count_tags(&model.tags);
    let tags = top_tags(&counts);
    let r = ModelSnapshot {
        agent_total: model.directory.len(),
        status_counts: [
            (StatusCategory::Working, sc[0]),
            (StatusCategory::Waiting, sc[1]),
            (StatusCategory::Blocked, sc[2]),
            (StatusCategory::Error, sc[3]),
            (StatusCategory::Done, sc[4]),
            (StatusCategory::Unknown, sc[5]),
        ],
        source_counts: source_counts(vals),
        message_total: 0,
        message_unread: 0,
        event_total: model.events.len(),
        event_by_severity: [("Info".to_owned(), sev[0]), ("Warn".to_owned(), sev[1]), ("Error".to_owned(), sev[2])],
        event_by_category: category_counts(&model.events),
        group_count: model.groups.len(),
        pinned_count: pinned_in(vals, &model.pinned),
        history_count: model.history.len(),
        event_recent_60s: recent,
        computed_at_ms: now,
        tag_counts: tags,
        alert_rule_count: model.alert_rules.len(),
    };
    assert(agents_of(vals@) =~= model.directory.value_seq());
    r
}

/// The dashboard aggregates of `model` now.
pub fn compute_snapshot(model: &Model) -> (r: ModelSnapshot)
    requires
        model.wf(),
    ensures
        snapshot_of(*model, r.computed_at_ms, r),
{
    let now = now_ms();
    compute_snapshot_at(model, now)
}

} // verus!
