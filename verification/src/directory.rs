//! Directory ordering (by worktree, state, source or name, pinned agents
//! first), directory filtering, and focus mode.
use vstd::prelude::*;
use crate::strmap::{StrMap, StrSet};
use crate::order::{keep, rising, strict_order, lemma_keep_contains, lemma_keep_rising, lemma_keep_map, lemma_rising_unique};
use crate::store::{sets_wf, set_map};
use crate::model::{opt_str, Agent, SortMode, StatusCategory, category_rank, category_of, category_state_at, effective_state_at_spec, opt_or, now_ms};
use crate::text::{views, trim_vec, chars_of, find_colon, string_of, lower_vec, lower_chars, contains_vec, vec_is, owned, eq_ignore_ascii_case, seq_lt, str_lt, lemma_seq_lt_order, trim_seq, first_colon, lower_seq, has_sub, eq_ci, fuzzy};

verus! {

broadcast use vstd::string::group_string_axioms;

/// Last output time of an agent, 0 when unknown.
pub open spec fn act(a: Agent) -> int {
    match a.last_output_at {
        Some(t) => t as int,
        None => 0,
    }
}

/// Latest output time among the agents of `s` in worktree `cwd`, if any has one.
pub open spec fn latest_in(s: Seq<Agent>, cwd: Seq<char>) -> Option<int>
    decreases s.len(),
{
    if s.len() == 0 {
        None
    } else {
        let prev = latest_in(s.drop_last(), cwd);
        let a = s.last();
        if a.cwd@ == cwd && a.last_output_at is Some {
            let t = a.last_output_at->0 as int;
            match prev {
                Some(p) => Some(if p >= t { p } else { t }),
                None => Some(t),
            }
        } else {
            prev
        }
    }
}

/// Activity of a worktree group: its latest output time, 0 when none is known.
pub open spec fn group_activity(s: Seq<Agent>, cwd: Seq<char>) -> int {
    match latest_in(s, cwd) {
        Some(v) => v,
        None => 0,
    }
}

/// Grouping key by source ("unknown" when absent).
pub open spec fn source_key(a: Agent) -> Seq<char> {
    opt_or(a.source, "unknown"@)
}

/// Name key: the title, or the handle when there is none.
pub open spec fn name_key(a: Agent) -> Seq<char> {
    opt_or(a.title, a.handle@)
}

/// Larger first, then `rest`.
pub open spec fn desc_then(x: int, y: int, rest: bool) -> bool {
    x > y || (x == y && rest)
}

/// Smaller first, then `rest`.
pub open spec fn asc_then(x: int, y: int, rest: bool) -> bool {
    x < y || (x == y && rest)
}

/// Lexicographically smaller first, then `rest`.
pub open spec fn str_then(x: Seq<char>, y: Seq<char>, rest: bool) -> bool {
    seq_lt(x, y) || (x == y && rest)
}

/// Status rank of an agent at time `now`.
pub open spec fn state_rank(a: Agent, now: int) -> int {
    category_rank(category_of(category_state_at(a, now)))
}

/// `a` sorts strictly before `b` in mode `mode`, among the agents `all`.
/// - by worktree: group activity (latest first), worktree path, last output (latest first), handle;
/// - by state: status rank, last output (latest first), handle;
/// - by source: source, last output (latest first), handle;
/// - by name: title (or handle), handle.
pub open spec fn mode_before(a: Agent, b: Agent, mode: SortMode, all: Seq<Agent>, now: int) -> bool {
    let hb = seq_lt(a.handle@, b.handle@);
    match mode {
        SortMode::ByWorktree => desc_then(group_activity(all, a.cwd@), group_activity(all, b.cwd@),
            str_then(a.cwd@, b.cwd@, desc_then(act(a), act(b), hb))),
        SortMode::ByState => asc_then(state_rank(a, now), state_rank(b, now), desc_then(act(a), act(b), hb)),
        SortMode::BySource => str_then(source_key(a), source_key(b), desc_then(act(a), act(b), hb)),
        SortMode::ByName => str_then(name_key(a), name_key(b), hb),
    }
}

/// Pinned agents first; within each part, `mode_before`.
pub open spec fn dir_before(a: Agent, b: Agent, mode: SortMode, all: Seq<Agent>, pinned: Set<Seq<char>>, now: int) -> bool {
    (pinned.contains(a.handle@) && !pinned.contains(b.handle@))
        || (pinned.contains(a.handle@) == pinned.contains(b.handle@) && mode_before(a, b, mode, all, now))
}

/// `p` lists each of `0..n` once.
pub open spec fn is_perm(p: Seq<int>, n: int) -> bool {
    &&& p.len() == n
    &&& p.no_duplicates()
    &&& forall|i: int| 0 <= i < p.len() ==> 0 <= #[trigger] p[i] < n
}

/// `p` orders the agents `all`: no agent sorts strictly before an earlier one.
pub open spec fn perm_sorted(p: Seq<int>, all: Seq<Agent>, mode: SortMode, pinned: Set<Seq<char>>, now: int) -> bool {
    forall|i: int, j: int| 0 <= i < j < p.len() ==> !dir_before(all[#[trigger] p[j]], all[#[trigger] p[i]], mode, all, pinned, now)
}

/// `r` is the directory's handles in directory order at time `now`.
pub open spec fn is_directory_order(r: Seq<Seq<char>>, dir: StrMap<Agent>, mode: SortMode, pinned: Set<Seq<char>>, now: int) -> bool {
    exists|p: Seq<int>| {
        &&& is_perm(p, dir.value_seq().len() as int)
        &&& perm_sorted(p, dir.value_seq(), mode, pinned, now)
        &&& r.len() == p.len()
        &&& forall|i: int| 0 <= i < r.len() ==> r[i] == #[trigger] dir.value_seq()[p[i]].handle@
    }
}

/// In directory order every pinned handle comes before every unpinned one,
/// and two handles that are both pinned or both unpinned keep the mode's
/// order: the later one never sorts strictly before the earlier one.
pub proof fn law_pinned_first(r: Seq<Seq<char>>, dir: StrMap<Agent>, mode: SortMode, pinned: Set<Seq<char>>, now: int)
    requires
        is_directory_order(r, dir, mode, pinned, now),
    ensures
        forall|i: int, j: int| 0 <= i < j < r.len() && #[trigger] pinned.contains(r[j]) ==> #[trigger] pinned.contains(r[i]),
        exists|p: Seq<int>| {
            &&& is_perm(p, dir.value_seq().len() as int)
            &&& r.len() == p.len()
            &&& forall|i: int| 0 <= i < r.len() ==> r[i] == #[trigger] dir.value_seq()[p[i]].handle@
            &&& forall|i: int, j: int| 0 <= i < j < p.len() && pinned.contains(r[i]) == pinned.contains(r[j])
                ==> !mode_before(dir.value_seq()[#[trigger] p[j]], dir.value_seq()[#[trigger] p[i]], mode, dir.value_seq(), now)
        },
{
    let all = dir.value_seq();
    let p = choose|p: Seq<int>| {
        &&& is_perm(p, all.len() as int)
        &&& perm_sorted(p, all, mode, pinned, now)
        &&& r.len() == p.len()
        &&& forall|i: int| 0 <= i < r.len() ==> r[i] == #[trigger] all[p[i]].handle@
    };
    assert forall|i: int, j: int| 0 <= i < j < r.len() && #[trigger] pinned.contains(r[j]) implies #[trigger] pinned.contains(r[i]) by {
        assert(r[i] == all[p[i]].handle@);
        assert(r[j] == all[p[j]].handle@);
        assert(!dir_before(all[p[j]], all[p[i]], mode, all, pinned, now));
    }
    assert forall|i: int, j: int| 0 <= i < j < p.len() && pinned.contains(r[i]) == pinned.contains(r[j])
        implies !mode_before(all[#[trigger] p[j]], all[#[trigger] p[i]], mode, all, now) by {
        assert(r[i] == all[p[i]].handle@);
        assert(r[j] == all[p[j]].handle@);
        assert(!dir_before(all[p[j]], all[p[i]], mode, all, pinned, now));
    }
}

proof fn lemma_dir_before_order(a: Agent, b: Agent, c: Agent, mode: SortMode, all: Seq<Agent>, pinned: Set<Seq<char>>, now: int)
    ensures
        !dir_before(a, a, mode, all, pinned, now),
        dir_before(a, b, mode, all, pinned, now) && dir_before(b, c, mode, all, pinned, now)
            ==> dir_before(a, c, mode, all, pinned, now),
{
    lemma_seq_lt_order();
}

/// `a` may stand before `b` in mode `mode`: by state, its status rank
/// (working, waiting, blocked, error, done, no status) is not higher, and at
/// equal rank its last output is not older; by source, its source (or
/// "unknown") is not later in text order; by name, its title (or handle) is
/// not later; by worktree, its group's latest activity is not older, and in
/// the same group its path is not later.
pub open spec fn keys_ordered(a: Agent, b: Agent, mode: SortMode, all: Seq<Agent>, now: int) -> bool {
    match mode {
        SortMode::ByState => {
            let ra = category_rank(category_of(category_state_at(a, now)));
            let rb = category_rank(category_of(category_state_at(b, now)));
            ra <= rb && (ra == rb ==> act(a) >= act(b))
        },
        SortMode::BySource => !seq_lt(opt_or(b.source, "unknown"@), opt_or(a.source, "unknown"@)),
        SortMode::ByName => !seq_lt(opt_or(b.title, b.handle@), opt_or(a.title, a.handle@)),
        SortMode::ByWorktree => {
            let ga = group_activity(all, a.cwd@);
            let gb = group_activity(all, b.cwd@);
            ga >= gb && (ga == gb ==> !seq_lt(b.cwd@, a.cwd@))
        },
    }
}

/// In directory order, two agents that are both pinned or both unpinned
/// stand in the order of the mode's keys (see `keys_ordered`); in
/// particular, by state a working agent comes before a done one.
pub proof fn law_mode_order(r: Seq<Seq<char>>, dir: StrMap<Agent>, mode: SortMode, pinned: Set<Seq<char>>, now: int)
    requires
        is_directory_order(r, dir, mode, pinned, now),
    ensures
        exists|p: Seq<int>| {
            &&& is_perm(p, dir.value_seq().len() as int)
            &&& r.len() == p.len()
            &&& forall|i: int| 0 <= i < r.len() ==> r[i] == #[trigger] dir.value_seq()[p[i]].handle@
            &&& forall|i: int, j: int| 0 <= i < j < p.len()
                && pinned.contains(dir.value_seq()[p[i]].handle@) == pinned.contains(dir.value_seq()[p[j]].handle@)
                ==> keys_ordered(dir.value_seq()[#[trigger] p[i]], dir.value_seq()[#[trigger] p[j]], mode, dir.value_seq(), now)
        },
{
    let all = dir.value_seq();
    let p = choose|p: Seq<int>| {
        &&& is_perm(p, all.len() as int)
        &&& perm_sorted(p, all, mode, pinned, now)
        &&& r.len() == p.len()
        &&& forall|i: int| 0 <= i < r.len() ==> r[i] == #[trigger] all[p[i]].handle@
    };
    assert forall|i: int, j: int| 0 <= i < j < p.len()
        && pinned.contains(all[p[i]].handle@) == pinned.contains(all[p[j]].handle@)
        implies keys_ordered(all[#[trigger] p[i]], all[#[trigger] p[j]], mode, all, now) by {
        assert(!dir_before(all[p[j]], all[p[i]], mode, all, pinned, now));
        assert(!mode_before(all[p[j]], all[p[i]], mode, all, now));
    }
}

proof fn lemma_dir_before_total(a: Agent, b: Agent, mode: SortMode, all: Seq<Agent>, pinned: Set<Seq<char>>, now: int)
    requires
        a.handle@ != b.handle@,
    ensures
        dir_before(a, b, mode, all, pinned, now) || dir_before(b, a, mode, all, pinned, now),
{
    lemma_seq_lt_order();
}

/// No two agents of `all` share a handle.
pub open spec fn handles_distinct(all: Seq<Agent>) -> bool {
    forall|i: int, j: int| #![trigger all[i], all[j]] 0 <= i < all.len() && 0 <= j < all.len() && i != j
        ==> all[i].handle@ != all[j].handle@
}

/// The directory order on positions of `all`.
pub open spec fn dir_lt(all: Seq<Agent>, mode: SortMode, pinned: Set<Seq<char>>, now: int) -> spec_fn(int, int) -> bool {
    |i: int, j: int| dir_before(all[i], all[j], mode, all, pinned, now)
}

proof fn lemma_perm_contains(p: Seq<int>, n: int)
    requires
        is_perm(p, n),
    ensures
        forall|x: int| p.contains(x) == (0 <= x < n),
{
    broadcast use vstd::seq_lib::seq_to_set_is_finite;
    let r = vstd::set_lib::set_int_range(0, n);
    vstd::set_lib::lemma_int_range(0, n);
    p.unique_seq_to_set();
    assert forall|x: int| p.to_set().contains(x) implies r.contains(x) by {
        let k = choose|k: int| 0 <= k < p.len() && p[k] == x;
        assert(0 <= p[k] < n);
    }
    assert(p.to_set().subset_of(r));
    vstd::set_lib::lemma_subset_equality(p.to_set(), r);
    assert forall|x: int| p.contains(x) == (0 <= x < n) by {
        assert(p.to_set().contains(x) == p.contains(x));
        assert(r.contains(x) == (0 <= x < n));
    }
}

proof fn lemma_order_rising(p: Seq<int>, all: Seq<Agent>, mode: SortMode, pinned: Set<Seq<char>>, now: int)
    requires
        is_perm(p, all.len() as int),
        perm_sorted(p, all, mode, pinned, now),
        handles_distinct(all),
    ensures
        rising(p, dir_lt(all, mode, pinned, now)),
        strict_order(dir_lt(all, mode, pinned, now)),
{
    let lt = dir_lt(all, mode, pinned, now);
    assert forall|i: int, j: int| 0 <= i < j < p.len() implies #[trigger] lt(p[i], p[j]) by {
        assert(p[i] != p[j]);
        assert(all[p[i]].handle@ != all[p[j]].handle@);
        lemma_dir_before_total(all[p[i]], all[p[j]], mode, all, pinned, now);
        assert(!dir_before(all[p[j]], all[p[i]], mode, all, pinned, now));
    }
    assert forall|x: int| !#[trigger] lt(x, x) by {
        lemma_dir_before_order(all[x], all[x], all[x], mode, all, pinned, now);
    }
    assert forall|x: int, y: int, z: int| #[trigger] lt(x, y) && #[trigger] lt(y, z) implies lt(x, z) by {
        lemma_dir_before_order(all[x], all[y], all[z], mode, all, pinned, now);
    }
}

/// The directory order is unique: when no two agents share a handle, any
/// two arrangements in directory order (same mode, pins and time) are equal.
pub proof fn law_directory_order_unique(r1: Seq<Seq<char>>, r2: Seq<Seq<char>>, dir: StrMap<Agent>, mode: SortMode,
    pinned: Set<Seq<char>>, now: int)
    requires
        handles_distinct(dir.value_seq()),
        is_directory_order(r1, dir, mode, pinned, now),
        is_directory_order(r2, dir, mode, pinned, now),
    ensures
        r1 == r2,
{
    let all = dir.value_seq();
    let n = all.len() as int;
    let p1 = choose|p: Seq<int>| {
        &&& is_perm(p, n)
        &&& perm_sorted(p, all, mode, pinned, now)
        &&& r1.len() == p.len()
        &&& forall|i: int| 0 <= i < r1.len() ==> r1[i] == #[trigger] all[p[i]].handle@
    };
    let p2 = choose|p: Seq<int>| {
        &&& is_perm(p, n)
        &&& perm_sorted(p, all, mode, pinned, now)
        &&& r2.len() == p.len()
        &&& forall|i: int| 0 <= i < r2.len() ==> r2[i] == #[trigger] all[p[i]].handle@
    };
    lemma_order_rising(p1, all, mode, pinned, now);
    lemma_order_rising(p2, all, mode, pinned, now);
    lemma_perm_contains(p1, n);
    lemma_perm_contains(p2, n);
    lemma_rising_unique(p1, p2, dir_lt(all, mode, pinned, now));
    assert forall|i: int| 0 <= i < r1.len() implies r1[i] == r2[i] by {
        assert(r1[i] == all[p1[i]].handle@);
        assert(r2[i] == all[p2[i]].handle@);
    }
    assert(r1 =~= r2);
}

/// With pins, the directory order is the order without pins split in two:
/// the pinned handles in that order, then the others in that order. (No two
/// agents may share a handle; both orders are taken at the same time.)
pub proof fn law_pinned_split(r: Seq<Seq<char>>, b: Seq<Seq<char>>, dir: StrMap<Agent>, mode: SortMode,
    pinned: Set<Seq<char>>, now: int)
    requires
        handles_distinct(dir.value_seq()),
        is_directory_order(r, dir, mode, pinned, now),
        is_directory_order(b, dir, mode, Set::empty(), now),
    ensures
        r == keep(b, |h: Seq<char>| pinned.contains(h)) + keep(b, |h: Seq<char>| !pinned.contains(h)),
{
    let all = dir.value_seq();
    let n = all.len() as int;
    let none = Set::<Seq<char>>::empty();
    let pr = choose|p: Seq<int>| {
        &&& is_perm(p, n)
        &&& perm_sorted(p, all, mode, pinned, now)
        &&& r.len() == p.len()
        &&& forall|i: int| 0 <= i < r.len() ==> r[i] == #[trigger] all[p[i]].handle@
    };
    let pb = choose|p: Seq<int>| {
        &&& is_perm(p, n)
        &&& perm_sorted(p, all, mode, none, now)
        &&& b.len() == p.len()
        &&& forall|i: int| 0 <= i < b.len() ==> b[i] == #[trigger] all[p[i]].handle@
    };
    let lt = dir_lt(all, mode, pinned, now);
    let lt0 = dir_lt(all, mode, none, now);
    lemma_order_rising(pr, all, mode, pinned, now);
    lemma_order_rising(pb, all, mode, none, now);
    lemma_perm_contains(pr, n);
    lemma_perm_contains(pb, n);
    let pp = |k: int| pinned.contains(all[k].handle@);
    let np = |k: int| !pinned.contains(all[k].handle@);
    let k1 = keep(pb, pp);
    let k2 = keep(pb, np);
    let q = k1 + k2;
    lemma_keep_rising(pb, pp, lt0);
    lemma_keep_rising(pb, np, lt0);
    assert forall|x: int| #[trigger] q.contains(x) == pr.contains(x) by {
        lemma_keep_contains(pb, pp, x);
        lemma_keep_contains(pb, np, x);
        if q.contains(x) {
            let i = choose|i: int| 0 <= i < q.len() && q[i] == x;
            if i < k1.len() {
                assert(k1.contains(x));
            } else {
                assert(k2[i - k1.len()] == x);
                assert(k2.contains(x));
            }
        }
        if k1.contains(x) {
            let i = choose|i: int| 0 <= i < k1.len() && k1[i] == x;
            assert(q[i] == x);
        }
        if k2.contains(x) {
            let i = choose|i: int| 0 <= i < k2.len() && k2[i] == x;
            assert(q[k1.len() + i] == x);
        }
    }
    assert(rising(q, lt)) by {
        assert forall|i: int, j: int| 0 <= i < j < q.len() implies #[trigger] lt(q[i], q[j]) by {
            if j < k1.len() {
                assert(lt0(k1[i], k1[j]));
                assert(k1.contains(k1[i]) && k1.contains(k1[j]));
                lemma_keep_contains(pb, pp, k1[i]);
                lemma_keep_contains(pb, pp, k1[j]);
            } else if i >= k1.len() {
                assert(q[i] == k2[i - k1.len()] && q[j] == k2[j - k1.len()]);
                assert(lt0(k2[i - k1.len()], k2[j - k1.len()]));
                assert(k2.contains(k2[i - k1.len()]) && k2.contains(k2[j - k1.len()]));
                lemma_keep_contains(pb, np, k2[i - k1.len()]);
                lemma_keep_contains(pb, np, k2[j - k1.len()]);
            } else {
                assert(q[j] == k2[j - k1.len()]);
                assert(k1.contains(k1[i]) && k2.contains(k2[j - k1.len()]));
                lemma_keep_contains(pb, pp, k1[i]);
                lemma_keep_contains(pb, np, k2[j - k1.len()]);
            }
        }
    }
    lemma_rising_unique(pr, q, lt);
    let h = |k: int| all[k].handle@;
    let ph = |x: Seq<char>| pinned.contains(x);
    let nh = |x: Seq<char>| !pinned.contains(x);
    assert(b =~= Seq::new(pb.len(), |i: int| h(pb[i])));
    lemma_keep_map(pb, h, pp, ph);
    lemma_keep_map(pb, h, np, nh);
    assert(r =~= Seq::new(k1.len(), |i: int| h(k1[i])) + Seq::new(k2.len(), |i: int| h(k2[i]))) by {
        assert forall|i: int| 0 <= i < r.len() implies r[i] == (Seq::new(k1.len(), |i: int| h(k1[i])) + Seq::new(k2.len(), |i: int| h(k2[i])))[i] by {
            assert(r[i] == all[pr[i]].handle@);
        }
    }
}

/// Latest output time among agents of `vals` in worktree `cwd`, 0 when none is known.
fn group_activity_of(vals: &Vec<(String, Agent)>, cwd: &String) -> (r: i64)
    ensures
        r as int == group_activity(Seq::new(vals@.len(), |i: int| vals@[i].1), cwd@),
{
    let ghost s = Seq::new(vals@.len(), |i: int| vals@[i].1);
    let mut best: Option<i64> = None;
    let mut i: usize = 0;
    while i < vals.len()
        invariant
            i <= vals.len(),
            s == Seq::new(vals@.len(), |k: int| vals@[k].1),
            match best {
                Some(b) => latest_in(s.take(i as int), cwd@) == Some(b as int),
                None => latest_in(s.take(i as int), cwd@) is None,
            },
        decreases vals.len() - i,
    {
        let a = &vals[i].1;
        assert(s.take(i + 1).drop_last() =~= s.take(i as int));
        assert(s.take(i + 1).last() == *a);
        if a.cwd == *cwd {
            match a.last_output_at {
                Some(t) => {
                    best = match best {
                        Some(b) => Some(if b >= t { b } else { t }),
                        None => Some(t),
                    };
                },
                None => {},
            }
        }
        i += 1;
    }
    assert(s.take(vals.len() as int) =~= s);
    match best {
        Some(b) => b,
        None => 0,
    }
}

/// Whether agent `a` sorts strictly before agent `b` (see `dir_before`), given
/// their group activities and status ranks.
fn before(a: &Agent, b: &Agent, ga: i64, gb: i64, ra: u8, rb: u8, pa: bool, pb: bool, mode: SortMode) -> (r: bool)
    ensures
        forall|all: Seq<Agent>, pinned: Set<Seq<char>>, now: int|
            ga as int == group_activity(all, a.cwd@) && gb as int == group_activity(all, b.cwd@)
            && ra as int == state_rank(*a, now) && rb as int == state_rank(*b, now)
            && pa == pinned.contains(a.handle@) && pb == pinned.contains(b.handle@)
            ==> r == #[trigger] dir_before(*a, *b, mode, all, pinned, now),
{
    if pa != pb {
        return pa;
    }
    let xa = match a.last_output_at { Some(t) => t, None => 0 };
    let xb = match b.last_output_at { Some(t) => t, None => 0 };
    let hb = str_lt(a.handle.as_str(), b.handle.as_str());
    let act_then = xa > xb || (xa == xb && hb);
    match mode {
        SortMode::ByWorktree => {
            ga > gb || (ga == gb && (str_lt(a.cwd.as_str(), b.cwd.as_str()) || (a.cwd == b.cwd && act_then)))
        },
        SortMode::ByState => ra < rb || (ra == rb && act_then),
        SortMode::BySource => {
            let sa = match &a.source { Some(s) => s.as_str(), None => "unknown" };
            let sb = match &b.source { Some(s) => s.as_str(), None => "unknown" };
            str_lt(sa, sb) || (crate::text::str_eq(sa, sb) && act_then)
        },
        SortMode::ByName => {
            let na = match &a.title { Some(s) => s.as_str(), None => a.handle.as_str() };
            let nb = match &b.title { Some(s) => s.as_str(), None => b.handle.as_str() };
            str_lt(na, nb) || (crate::text::str_eq(na, nb) && hb)
        },
    }
}

/// The directory's handles in directory order at time `now` (pinned agents
/// first; see `dir_before`).
pub fn directory_sorted_at(directory: &StrMap<Agent>, mode: SortMode, pinned: &StrSet, now: i64) -> (r: Vec<String>)
    ensures
        is_directory_order(views(r@), *directory, mode, pinned.set(), now as int),
{
    let vals = &directory.entries;
    let n = vals.len();
    let ghost all = directory.value_seq();
    let mut gas: Vec<i64> = Vec::new();
    let mut ranks: Vec<u8> = Vec::new();
    let mut pins: Vec<bool> = Vec::new();
    let mut k: usize = 0;
    while k < n
        invariant
            n == vals.len(),
            all == directory.value_seq(),
            vals == &directory.entries,
            k <= n,
            gas@.len() == k,
            ranks@.len() == k,
            pins@.len() == k,
            forall|j: int| 0 <= j < k ==> #[trigger] gas@[j] as int == group_activity(all, all[j].cwd@),
            forall|j: int| 0 <= j < k ==> #[trigger] ranks@[j] as int == state_rank(all[j], now as int),
            forall|j: int| 0 <= j < k ==> #[trigger] pins@[j] == pinned.set().contains(all[j].handle@),
        decreases n - k,
    {
        let a = &vals[k].1;
        assert(Seq::new(vals@.len(), |i: int| vals@[i].1) =~= all);
        gas.push(group_activity_of(vals, &a.cwd));
        ranks.push(StatusCategory::from_agent_at(a, now).rank());
        pins.push(pinned.contains(a.handle.as_str()));
        k += 1;
    }
    // insertion sort of the positions
    let mut p: Vec<usize> = Vec::new();
    let mut i: usize = 0;
    while i < n
        invariant
            n == vals.len(),
            all == directory.value_seq(),
            vals == &directory.entries,
            i <= n,
            gas@.len() == n,
            ranks@.len() == n,
            pins@.len() == n,
            forall|j: int| 0 <= j < n ==> #[trigger] gas@[j] as int == group_activity(all, all[j].cwd@),
            forall|j: int| 0 <= j < n ==> #[trigger] ranks@[j] as int == state_rank(all[j], now as int),
            forall|j: int| 0 <= j < n ==> #[trigger] pins@[j] == pinned.set().contains(all[j].handle@),
            is_perm(Seq::new(p@.len(), |j: int| p@[j] as int), i as int),
            forall|j: int| 0 <= j < p@.len() ==> (#[trigger] p@[j]) < i,
            perm_sorted(Seq::new(p@.len(), |j: int| p@[j] as int), all, mode, pinned.set(), now as int),
        decreases n - i,
    {
        let ghost ps = Seq::new(p@.len(), |j: int| p@[j] as int);
        // first position whose element sorts strictly after element i
        let mut q: usize = 0;
        while q < p.len() && !before(&vals[i].1, &vals[p[q]].1, gas[i], gas[p[q]], ranks[i], ranks[p[q]], pins[i], pins[p[q]], mode)
            invariant
                n == vals.len(),
                all == directory.value_seq(),
                vals == &directory.entries,
                i < n,
                gas@.len() == n,
                ranks@.len() == n,
                pins@.len() == n,
                forall|j: int| 0 <= j < n ==> #[trigger] gas@[j] as int == group_activity(all, all[j].cwd@),
                forall|j: int| 0 <= j < n ==> #[trigger] ranks@[j] as int == state_rank(all[j], now as int),
                forall|j: int| 0 <= j < n ==> #[trigger] pins@[j] == pinned.set().contains(all[j].handle@),
                ps == Seq::new(p@.len(), |j: int| p@[j] as int),
                is_perm(ps, i as int),
                forall|j: int| 0 <= j < p@.len() ==> (#[trigger] p@[j]) < n,
                q <= p.len(),
                forall|j: int| 0 <= j < q ==> !dir_before(all[i as int], all[#[trigger] ps[j]], mode, all, pinned.set(), now as int),
            decreases p.len() - q,
        {
            q += 1;
        }
        proof {
            assert forall|j: int| q <= j < ps.len() implies !dir_before(all[#[trigger] ps[j]], all[i as int], mode, all, pinned.set(), now as int) by {
                lemma_dir_before_order(all[ps[j]], all[i as int], all[ps[q as int]], mode, all, pinned.set(), now as int);
                if j > q {
                    assert(!dir_before(all[ps[j]], all[ps[q as int]], mode, all, pinned.set(), now as int));
                }
            }
        }
        p.insert(q, i);
        proof {
            let np = Seq::new(p@.len(), |j: int| p@[j] as int);
            assert(np =~= ps.insert(q as int, i as int));
            assert forall|j: int| 0 <= j < p@.len() implies (#[trigger] p@[j]) < i + 1 by {
                assert(p@[j] as int == np[j]);
                if j != q {
                    let oj = if j < q { j } else { j - 1 };
                    assert(np[j] == ps[oj]);
                }
            }
            assert forall|a: int, b: int| 0 <= a < b < np.len() implies np[a] != np[b] by {
                if a != q && b != q {
                    let oa = if a < q { a } else { a - 1 };
                    let ob = if b < q { b } else { b - 1 };
                    assert(np[a] == ps[oa] && np[b] == ps[ob]);
                }
            }
            assert forall|a: int, b: int| 0 <= a < b < np.len() implies
                !dir_before(all[#[trigger] np[b]], all[#[trigger] np[a]], mode, all, pinned.set(), now as int) by {
                if a != q && b != q {
                    let oa = if a < q { a } else { a - 1 };
                    let ob = if b < q { b } else { b - 1 };
                    assert(np[a] == ps[oa] && np[b] == ps[ob]);
                } else if a == q {
                    assert(np[b] == ps[b - 1]);
                } else {
                    assert(np[a] == ps[a]);
                }
            }
        }
        i += 1;
    }
    let ghost ps = Seq::new(p@.len(), |j: int| p@[j] as int);
    let mut r: Vec<String> = Vec::new();
    let mut j: usize = 0;
    while j < p.len()
        invariant
            n == vals.len(),
            all == directory.value_seq(),
            vals == &directory.entries,
            ps == Seq::new(p@.len(), |j: int| p@[j] as int),
            is_perm(ps, n as int),
            forall|j: int| 0 <= j < p@.len() ==> (#[trigger] p@[j]) < n,
            j <= p.len(),
            r@.len() == j,
            forall|k: int| 0 <= k < j ==> #[trigger] r@[k]@ == all[ps[k]].handle@,
        decreases p.len() - j,
    {
        r.push(vals[p[j]].1.handle.clone());
        j += 1;
    }
    proof {
        let rs = views(r@);
        assert(is_perm(ps, directory.value_seq().len() as int));
        assert(perm_sorted(ps, directory.value_seq(), mode, pinned.set(), now as int));
        assert forall|k: int| 0 <= k < rs.len() implies rs[k] == #[trigger] directory.value_seq()[ps[k]].handle@ by {
            assert(r@[k]@ == all[ps[k]].handle@);
        }
        assert(rs.len() == ps.len());
    }
    r
}

/// The directory's handles in directory order now (pinned agents first; see `dir_before`).
pub fn directory_sorted_with_mode(directory: &StrMap<Agent>, mode: SortMode, pinned: &StrSet) -> (r: Vec<String>)
    ensures
        exists|now: int| #[trigger] is_directory_order(views(r@), *directory, mode, pinned.set(), now),
{
    let now = now_ms();
    directory_sorted_at(directory, mode, pinned, now)
}

/// The directory's handles ordered by worktree, with nothing pinned.
pub fn directory_sorted_handles(directory: &StrMap<Agent>) -> (r: Vec<String>)
    ensures
        exists|now: int| #[trigger] is_directory_order(views(r@), *directory, SortMode::ByWorktree, Set::empty(), now),
{
    let none = StrSet::new();
    directory_sorted_with_mode(directory, SortMode::ByWorktree, &none)
}

/// Whether the agent `h` passes the directory filter `query` at time `now`.
/// The query is trimmed; "field:value" tests one field (source, state,
/// cwd/path/worktree, title: the value occurs in the lowercased field; tag:
/// the agent has a tag equal to the value ignoring case); anything else
/// fuzzy-matches the value against "title source state cwd".
pub open spec fn filter_keeps(h: Seq<char>, dir: StrMap<Agent>, query: Seq<char>, tags: Map<Seq<char>, Set<Seq<char>>>, now: int) -> bool {
    let q = trim_seq(query);
    dir.map().dom().contains(h) && agent_keeps(dir.map()[h], h, query_has_field(q), query_field(q), query_value(q), tags, now)
}

/// The trimmed query names a field ("field:value").
pub open spec fn query_has_field(q: Seq<char>) -> bool {
    exists|k: int| 0 <= k < q.len() && q[k] == ':'
}

/// The field named by a trimmed query (empty when it names none).
pub open spec fn query_field(q: Seq<char>) -> Seq<char> {
    if query_has_field(q) { q.take(first_colon(q)) } else { Seq::empty() }
}

/// The value of a trimmed query.
pub open spec fn query_value(q: Seq<char>) -> Seq<char> {
    if query_has_field(q) { q.skip(first_colon(q) + 1) } else { q }
}

/// Whether agent `a` (handle `h`) passes a parsed filter.
pub open spec fn agent_keeps(a: Agent, h: Seq<char>, has_field: bool, field: Seq<char>, value: Seq<char>,
    tags: Map<Seq<char>, Set<Seq<char>>>, now: int) -> bool {
    let vl = lower_seq(value);
    if has_field && field == "source"@ {
        has_sub(lower_seq(opt_or(a.source, ""@)), vl)
    } else if has_field && field == "state"@ {
        has_sub(lower_seq(effective_state_at_spec(a, now)), vl)
    } else if has_field && (field == "cwd"@ || field == "path"@ || field == "worktree"@) {
        has_sub(lower_seq(a.cwd@), vl)
    } else if has_field && field == "title"@ {
        has_sub(lower_seq(opt_or(a.title, ""@)), vl)
    } else if has_field && field == "tag"@ {
        tags.dom().contains(h) && exists|t: Seq<char>| tags[h].contains(t) && eq_ci(t, value)
    } else {
        fuzzy(value, opt_or(a.title, ""@) + " "@ + opt_or(a.source, ""@) + " "@ + effective_state_at_spec(a, now) + " "@ + a.cwd@)
    }
}

/// The handles of `sorted` that pass the directory filter, in order.
pub open spec fn filtered(sorted: Seq<Seq<char>>, dir: StrMap<Agent>, query: Seq<char>, tags: Map<Seq<char>, Set<Seq<char>>>, now: int) -> Seq<Seq<char>> {
    keep_seq(sorted, |h: Seq<char>| filter_keeps(h, dir, query, tags, now))
}

/// The elements of `s` that pass `keep`, in order.
pub open spec fn keep_seq(s: Seq<Seq<char>>, keep: spec_fn(Seq<char>) -> bool) -> Seq<Seq<char>>
    decreases s.len(),
{
    if s.len() == 0 {
        Seq::empty()
    } else {
        let prev = keep_seq(s.drop_last(), keep);
        if keep(s.last()) { prev.push(s.last()) } else { prev }
    }
}

proof fn lemma_keep_seq_is_keep(s: Seq<Seq<char>>, p: spec_fn(Seq<char>) -> bool)
    ensures
        keep_seq(s, p) == keep(s, p),
    decreases s.len(),
{
    if s.len() > 0 {
        lemma_keep_seq_is_keep(s.drop_last(), p);
    }
}

/// The filtered directory holds exactly the handles of `sorted` that pass
/// the filter.
pub proof fn law_filtered_members(sorted: Seq<Seq<char>>, dir: StrMap<Agent>, query: Seq<char>,
    tags: Map<Seq<char>, Set<Seq<char>>>, now: int, h: Seq<char>)
    ensures
        filtered(sorted, dir, query, tags, now).contains(h) == (sorted.contains(h) && filter_keeps(h, dir, query, tags, now)),
{
    let p = |x: Seq<char>| filter_keeps(x, dir, query, tags, now);
    lemma_keep_seq_is_keep(sorted, p);
    lemma_keep_contains(sorted, p, h);
}

proof fn lemma_field_query(q: Seq<char>, f: Seq<char>, v: Seq<char>)
    requires
        q == f + seq![':'] + v,
        !f.contains(':'),
    ensures
        query_has_field(q),
        query_field(q) == f,
        query_value(q) == v,
{
    let n = f.len() as int;
    assert(q[n] == ':');
    assert(forall|j: int| 0 <= j < n ==> q[j] == f[j]);
    assert(forall|j: int| 0 <= j < n ==> q[j] != ':') by {
        assert forall|j: int| 0 <= j < n implies q[j] != ':' by {
            assert(f.contains(f[j]));
        }
    }
    let i = first_colon(q);
    assert(0 <= i < q.len() && q[i] == ':' && forall|j: int| 0 <= j < i ==> q[j] != ':');
    assert(i == n);
    assert(q.take(n) =~= f);
    assert(q.skip(n + 1) =~= v);
}

/// The filter "source:v" keeps an agent of the directory exactly when its
/// lowercased source ("" when it has none) contains the lowercased `v`.
pub proof fn law_filter_source(h: Seq<char>, dir: StrMap<Agent>, query: Seq<char>, v: Seq<char>,
    tags: Map<Seq<char>, Set<Seq<char>>>, now: int)
    requires
        trim_seq(query) == "source:"@ + v,
    ensures
        filter_keeps(h, dir, query, tags, now) == (dir.map().dom().contains(h)
            && has_sub(lower_seq(match dir.map()[h].source { Some(s) => s@, None => Seq::empty() }), lower_seq(v))),
{
    reveal_strlit("source:");
    reveal_strlit("source");
    assert("source:"@ =~= "source"@ + seq![':']);
    lemma_field_query(trim_seq(query), "source"@, v);
    assert(""@ =~= Seq::<char>::empty()) by { reveal_strlit(""); }
}

/// The filter "title:v" keeps an agent of the directory exactly when its
/// lowercased title ("" when it has none) contains the lowercased `v`.
pub proof fn law_filter_title(h: Seq<char>, dir: StrMap<Agent>, query: Seq<char>, v: Seq<char>,
    tags: Map<Seq<char>, Set<Seq<char>>>, now: int)
    requires
        trim_seq(query) == "title:"@ + v,
    ensures
        filter_keeps(h, dir, query, tags, now) == (dir.map().dom().contains(h)
            && has_sub(lower_seq(match dir.map()[h].title { Some(s) => s@, None => Seq::empty() }), lower_seq(v))),
{
    reveal_strlit("title:");
    reveal_strlit("title");
    reveal_strlit("source");
    reveal_strlit("state");
    reveal_strlit("cwd");
    reveal_strlit("path");
    reveal_strlit("worktree");
    assert("title:"@ =~= "title"@ + seq![':']);
    assert("title"@.len() != "source"@.len());
    assert("title"@[0] != "state"@[0]);
    assert("title"@.len() != "cwd"@.len() && "title"@.len() != "path"@.len() && "title"@.len() != "worktree"@.len());
    lemma_field_query(trim_seq(query), "title"@, v);
    assert(""@ =~= Seq::<char>::empty()) by { reveal_strlit(""); }
}

/// The filters "cwd:v", "path:v" and "worktree:v" keep an agent of the
/// directory exactly when its lowercased working directory contains the
/// lowercased `v`.
pub proof fn law_filter_cwd(h: Seq<char>, dir: StrMap<Agent>, query: Seq<char>, f: Seq<char>, v: Seq<char>,
    tags: Map<Seq<char>, Set<Seq<char>>>, now: int)
    requires
        f == "cwd"@ || f == "path"@ || f == "worktree"@,
        trim_seq(query) == f + seq![':'] + v,
    ensures
        filter_keeps(h, dir, query, tags, now) == (dir.map().dom().contains(h)
            && has_sub(lower_seq(dir.map()[h].cwd@), lower_seq(v))),
{
    reveal_strlit("source");
    reveal_strlit("state");
    reveal_strlit("cwd");
    reveal_strlit("path");
    reveal_strlit("worktree");
    assert(f.len() == 3 || f.len() == 4 || f.len() == 8);
    assert(f != "source"@ && f != "state"@);
    assert(!f.contains(':')) by {
        if f.contains(':') {
            let k = choose|k: int| 0 <= k < f.len() && f[k] == ':';
            assert(f[k] != ':');
        }
    }
    lemma_field_query(trim_seq(query), f, v);
}

/// The filter "state:v" keeps an agent of the directory exactly when its
/// lowercased displayed state at `now` ("working" after output in the last
/// ten seconds, else its hook state, else "idle") contains the lowercased `v`.
pub proof fn law_filter_state(h: Seq<char>, dir: StrMap<Agent>, query: Seq<char>, v: Seq<char>,
    tags: Map<Seq<char>, Set<Seq<char>>>, now: int)
    requires
        trim_seq(query) == "state:"@ + v,
    ensures
        filter_keeps(h, dir, query, tags, now) == (dir.map().dom().contains(h)
            && has_sub(lower_seq(match dir.map()[h].last_output_at {
                Some(t) if now - t < 10000 => "working"@,
                _ => match dir.map()[h].state { Some(s) => s@, None => "idle"@ },
            }), lower_seq(v))),
{
    reveal_strlit("state:");
    reveal_strlit("source");
    reveal_strlit("state");
    assert("state:"@ =~= "state"@ + seq![':']);
    lemma_field_query(trim_seq(query), "state"@, v);
}

/// The filter "tag:v" keeps an agent of the directory exactly when one of
/// its tags equals `v`, ignoring ASCII case.
pub proof fn law_filter_tag(h: Seq<char>, dir: StrMap<Agent>, query: Seq<char>, v: Seq<char>,
    tags: Map<Seq<char>, Set<Seq<char>>>, now: int)
    requires
        trim_seq(query) == "tag:"@ + v,
    ensures
        filter_keeps(h, dir, query, tags, now) == (dir.map().dom().contains(h) && tags.dom().contains(h)
            && exists|t: Seq<char>| #[trigger] tags[h].contains(t) && lower_seq(t) == lower_seq(v)),
{
    reveal_strlit("tag:");
    reveal_strlit("tag");
    reveal_strlit("source");
    reveal_strlit("state");
    reveal_strlit("cwd");
    reveal_strlit("path");
    reveal_strlit("worktree");
    reveal_strlit("title");
    assert("tag:"@ =~= "tag"@ + seq![':']);
    assert("tag"@.len() != "source"@.len() && "tag"@.len() != "state"@.len() && "tag"@.len() != "path"@.len());
    assert("tag"@.len() != "worktree"@.len() && "tag"@.len() != "title"@.len());
    assert("tag"@[0] != "cwd"@[0]);
    lemma_field_query(trim_seq(query), "tag"@, v);
    let q = trim_seq(query);
    assert(query_field(q) == "tag"@ && query_value(q) == v);
    if dir.map().dom().contains(h) && tags.dom().contains(h) {
        let a = dir.map()[h];
        assert(agent_keeps(a, h, true, "tag"@, v, tags, now)
            == exists|t: Seq<char>| tags[h].contains(t) && eq_ci(t, v));
        assert((exists|t: Seq<char>| tags[h].contains(t) && eq_ci(t, v))
            == exists|t: Seq<char>| #[trigger] tags[h].contains(t) && lower_seq(t) == lower_seq(v)) by {
            if exists|t: Seq<char>| tags[h].contains(t) && eq_ci(t, v) {
                let t = choose|t: Seq<char>| tags[h].contains(t) && eq_ci(t, v);
                assert(tags[h].contains(t) && lower_seq(t) == lower_seq(v));
            }
            if exists|t: Seq<char>| #[trigger] tags[h].contains(t) && lower_seq(t) == lower_seq(v) {
                let t = choose|t: Seq<char>| #[trigger] tags[h].contains(t) && lower_seq(t) == lower_seq(v);
                assert(tags[h].contains(t) && eq_ci(t, v));
            }
        }
    }
}

/// A filter without a colon keeps an agent of the directory exactly when
/// the trimmed query's characters occur in order (ignoring ASCII case) in
/// its title, source, displayed state and working directory, joined by
/// spaces.
pub proof fn law_filter_plain(h: Seq<char>, dir: StrMap<Agent>, query: Seq<char>,
    tags: Map<Seq<char>, Set<Seq<char>>>, now: int)
    requires
        !trim_seq(query).contains(':'),
    ensures
        filter_keeps(h, dir, query, tags, now) == (dir.map().dom().contains(h) && {
            let a = dir.map()[h];
            let title = match a.title { Some(t) => t@, None => Seq::empty() };
            let source = match a.source { Some(t) => t@, None => Seq::empty() };
            let state = match a.last_output_at {
                Some(t) if now - t < 10000 => "working"@,
                _ => match a.state { Some(s) => s@, None => "idle"@ },
            };
            fuzzy(trim_seq(query), title + seq![' '] + source + seq![' '] + state + seq![' '] + a.cwd@)
        }),
{
    reveal_strlit("");
    reveal_strlit(" ");
    assert(" "@ =~= seq![' ']);
    assert(""@ =~= Seq::<char>::empty());
    let q = trim_seq(query);
    if query_has_field(q) {
        let k = choose|k: int| 0 <= k < q.len() && q[k] == ':';
        assert(q.contains(q[k]));
    }
    assert(query_value(q) == q);
    if dir.map().dom().contains(h) {
        let a = dir.map()[h];
        assert(opt_or(a.title, ""@) == (match a.title { Some(t) => t@, None => Seq::<char>::empty() }));
        assert(opt_or(a.source, ""@) == (match a.source { Some(t) => t@, None => Seq::<char>::empty() }));
    }
}

/// Whether some tag in `set` equals `value`, ignoring ASCII case.
fn set_has_ci(set: &StrSet, value: &str) -> (r: bool)
    ensures
        r == exists|t: Seq<char>| set.set().contains(t) && eq_ci(t, value@),
{
    let mut i: usize = 0;
    while i < set.items.len()
        invariant
            i <= set.items.len(),
            forall|j: int| 0 <= j < i ==> !eq_ci(#[trigger] set.item_seq()[j], value@),
        decreases set.items.len() - i,
    {
        if eq_ignore_ascii_case(set.items[i].as_str(), value) {
            assert(set.set().contains(set.item_seq()[i as int]));
            return true;
        }
        i += 1;
    }
    proof {
        assert forall|t: Seq<char>| set.set().contains(t) implies !eq_ci(t, value@) by {
            let j = choose|j: int| 0 <= j < set.item_seq().len() && set.item_seq()[j] == t;
        }
    }
    false
}

/// Whether agent `a` (handle `h`) passes a parsed filter (see `agent_keeps`).
fn agent_keeps_exec(a: &Agent, h: &str, has_field: bool, field: &Vec<char>, value: &String,
    vl: &Vec<char>, tags: &StrMap<StrSet>, now: i64) -> (r: bool)
    requires
        sets_wf(*tags),
        vl@ == lower_seq(value@),
    ensures
        r == agent_keeps(*a, h@, has_field, field@, value@, set_map(*tags), now as int),
{
    if has_field && vec_is(field, "source") {
        contains_vec(&lower_chars(opt_str(&a.source, "")), vl)
    } else if has_field && vec_is(field, "state") {
        contains_vec(&lower_chars(a.effective_state_at(now)), vl)
    } else if has_field && (vec_is(field, "cwd") || vec_is(field, "path") || vec_is(field, "worktree")) {
        contains_vec(&lower_chars(a.cwd.as_str()), vl)
    } else if has_field && vec_is(field, "title") {
        contains_vec(&lower_chars(opt_str(&a.title, "")), vl)
    } else if has_field && vec_is(field, "tag") {
        match tags.get(h) {
            Some(set) => {
                proof { tags.lemma_pos(tags.pos(h@)); }
                set_has_ci(set, value.as_str())
            },
            None => false,
        }
    } else {
        let mut combined = owned(opt_str(&a.title, ""));
        combined.append(" ");
        combined.append(opt_str(&a.source, ""));
        combined.append(" ");
        combined.append(a.effective_state_at(now));
        combined.append(" ");
        combined.append(a.cwd.as_str());
        crate::command::fuzzy_match(value.as_str(), combined.as_str())
    }
}

/// Whether the agent `h` passes the parsed filter (see `filter_keeps`).
fn keeps(h: &str, dir: &StrMap<Agent>, query: &str, has_field: bool, field: &Vec<char>, value: &String,
    vl: &Vec<char>, tags: &StrMap<StrSet>, now: i64) -> (r: bool)
    requires
        dir.wf(),
        sets_wf(*tags),
        has_field == query_has_field(trim_seq(query@)),
        field@ == query_field(trim_seq(query@)),
        value@ == query_value(trim_seq(query@)),
        vl@ == lower_seq(value@),
    ensures
        r == filter_keeps(h@, *dir, query@, set_map(*tags), now as int),
{
    match dir.get(h) {
        Some(a) => agent_keeps_exec(a, h, has_field, field, value, vl, tags, now),
        None => false,
    }
}

/// The handles of `sorted` that pass the directory filter `query` at time
/// `now` (see `filter_keeps`), in order; an empty query keeps them all.
#[verifier::spinoff_prover]
#[verifier::rlimit(30)]
pub fn directory_filter_handles_at(sorted: &[String], directory: &StrMap<Agent>, query: &str,
    tags: &StrMap<StrSet>, now: i64) -> (r: Vec<String>)
    requires
        directory.wf(),
        sets_wf(*tags),
    ensures
        query@.len() == 0 ==> views(r@) == views(sorted@),
        query@.len() > 0 ==> views(r@) == filtered(views(sorted@), *directory, query@, set_map(*tags), now as int),
{
    let ghost keep = |h: Seq<char>| filter_keeps(h, *directory, query@, set_map(*tags), now as int);
    let empty = query.is_empty();
    let q = trim_vec(&chars_of(query));
    let colon = find_colon(&q);
    let has_field = colon.is_some();
    let (field, value) = match colon {
        Some(i) => {
            let mut f: Vec<char> = Vec::new();
            let mut v: Vec<char> = Vec::new();
            let mut k: usize = 0;
            while k < q.len()
                invariant
                    i < q.len(),
                    k <= q.len(),
                    f@ == q@.take(if k <= i { k as int } else { i as int }),
                    v@ == (if k <= i + 1 { Seq::empty() } else { q@.subrange(i + 1, k as int) }),
                decreases q.len() - k,
            {
                if k < i {
                    f.push(q[k]);
                    assert(q@.take(k + 1) =~= q@.take(k as int).push(q@[k as int]));
                } else if k > i {
                    v.push(q[k]);
                    assert(q@.subrange(i + 1, k + 1) =~= (if k <= i + 1 { Seq::empty() } else { q@.subrange(i + 1, k as int) }).push(q@[k as int]));
                }
                k += 1;
            }
            assert(v@ =~= q@.skip(i + 1));
            (f, v)
        },
        None => (Vec::new(), q.clone()),
    };
    let value_s = string_of(&value);
    let vl = lower_vec(&value);
    let mut r: Vec<String> = Vec::new();
    let mut i: usize = 0;
    while i < sorted.len()
        invariant
            directory.wf(),
            sets_wf(*tags),
            i <= sorted.len(),
            has_field == query_has_field(trim_seq(query@)),
            field@ == query_field(trim_seq(query@)),
            value_s@ == query_value(trim_seq(query@)),
            vl@ == lower_seq(value_s@),
            keep == |h: Seq<char>| filter_keeps(h, *directory, query@, set_map(*tags), now as int),
            empty == (query@.len() == 0),
            empty ==> views(r@) == views(sorted@).take(i as int),
            !empty ==> views(r@) == keep_seq(views(sorted@).take(i as int), keep),
        decreases sorted.len() - i,
    {
        assert(views(sorted@).take(i + 1).drop_last() =~= views(sorted@).take(i as int));
        if empty || keeps(sorted[i].as_str(), directory, query, has_field, &field, &value_s, &vl, tags, now) {
            r.push(sorted[i].clone());
            assert(views(r@) =~= views(r@).drop_last().push(sorted@[i as int]@));
        }
        i += 1;
    }
    assert(views(sorted@).take(sorted.len() as int) =~= views(sorted@));
    r
}

/// The handles of `sorted` that pass the directory filter `query` now.
pub fn directory_filter_handles(sorted: &[String], directory: &StrMap<Agent>, query: &str,
    tags: &StrMap<StrSet>) -> (r: Vec<String>)
    requires
        directory.wf(),
        sets_wf(*tags),
    ensures
        query@.len() == 0 ==> views(r@) == views(sorted@),
        query@.len() > 0 ==> exists|now: int| views(r@) == #[trigger] filtered(views(sorted@), *directory, query@, set_map(*tags), now),
{
    let now = now_ms();
    directory_filter_handles_at(sorted, directory, query, tags, now)
}

/// In focus mode with a non-empty selection, only the selected handles of
/// `sorted` (in order); otherwise `sorted` unchanged.
pub fn apply_focus_filter(sorted: Vec<String>, focus_mode: bool, selected: &StrSet) -> (r: Vec<String>)
    ensures
        !focus_mode || selected.item_seq().len() == 0 ==> r == sorted,
        focus_mode && selected.item_seq().len() > 0 ==> views(r@) == keep_seq(views(sorted@), |h: Seq<char>| selected.set().contains(h)),
{
    if !focus_mode || selected.len() == 0 {
        return sorted;
    }
    let ghost keep = |h: Seq<char>| selected.set().contains(h);
    let mut r: Vec<String> = Vec::new();
    let mut i: usize = 0;
    while i < sorted.len()
        invariant
            i <= sorted.len(),
            keep == |h: Seq<char>| selected.set().contains(h),
            views(r@) == keep_seq(views(sorted@).take(i as int), keep),
        decreases sorted.len() - i,
    {
        assert(views(sorted@).take(i + 1).drop_last() =~= views(sorted@).take(i as int));
        if selected.contains(sorted[i].as_str()) {
            r.push(sorted[i].clone());
            assert(views(r@) =~= views(r@).drop_last().push(sorted@[i as int]@));
        }
        i += 1;
    }
    assert(views(sorted@).take(sorted.len() as int) =~= views(sorted@));
    r
}

} // verus!
