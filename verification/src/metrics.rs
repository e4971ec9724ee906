//! Per-agent activity metrics over a time window: event counts by category
//! and severity, and a bucketed timeline.
use vstd::prelude::*;
use crate::store::Model;
use crate::strmap::StrSet;
use crate::model::{Event, MetricsWindow, window_ms, window_buckets, severity_index, event_category_index, now_ms};
use crate::dashboard::count_where;
use crate::text::views;

verus! {

broadcast use vstd::string::group_string_axioms;

/// Metrics of one agent.
#[derive(Debug, Clone)]
pub struct AgentMetrics {
    pub handle: String,
    pub total_events: usize,
    /// Per category: Agent, State, Message, Group, System.
    pub by_category: [usize; 5],
    /// Per severity: Info, Warn, Error.
    pub by_severity: [usize; 3],
    /// Events per time bucket, oldest bucket first.
    pub timeline: Vec<u64>,
}

/// Metrics of all agents over a window.
#[derive(Debug, Clone)]
pub struct MetricsSnapshot {
    pub window: MetricsWindow,
    /// Most active agent first.
    pub agents: Vec<AgentMetrics>,
    pub category_totals: [usize; 5],
    pub severity_totals: [usize; 3],
    pub global_timeline: Vec<u64>,
}

/// The event falls in the window ending at `now`.
pub open spec fn in_window(e: Event, now: int, w: MetricsWindow) -> bool {
    e.timestamp_ms > now - window_ms(w)
}

/// `x` clamped to the range of `i64`.
pub open spec fn clamp64(x: int) -> int {
    if x < i64::MIN { i64::MIN as int } else if x > i64::MAX { i64::MAX as int } else { x }
}

/// Timeline bucket of an event: (window length − age) / bucket length, the
/// age being `now − timestamp` clamped to `i64`.
pub open spec fn bucket_of(e: Event, now: int, w: MetricsWindow) -> int {
    (window_ms(w) - clamp64(now - e.timestamp_ms)) / window_buckets(w).1
}

/// The event is counted for agent `who` (every event when None).
pub open spec fn by_agent(e: Event, who: Option<Seq<char>>) -> bool {
    match who {
        Some(h) => e.source@ == h,
        None => true,
    }
}

/// Events of `evs` in the window, of agent `who`, of category index `cat`
/// and severity index `sev` (any when None).
pub open spec fn event_count(evs: Seq<Event>, now: int, w: MetricsWindow, who: Option<Seq<char>>, cat: Option<int>, sev: Option<int>) -> nat
    decreases evs.len(),
{
    if evs.len() == 0 {
        0
    } else {
        let e = evs.last();
        let hit = in_window(e, now, w) && by_agent(e, who)
            && (match cat { Some(c) => event_category_index(e.category) == c, None => true })
            && (match sev { Some(v) => severity_index(e.severity) == v, None => true });
        event_count(evs.drop_last(), now, w, who, cat, sev) + if hit { 1nat } else { 0nat }
    }
}

/// Events of `evs` in the window, of agent `who`, that fall in bucket `k`.
pub open spec fn bucket_count(evs: Seq<Event>, now: int, w: MetricsWindow, who: Option<Seq<char>>, k: int) -> nat
    decreases evs.len(),
{
    if evs.len() == 0 {
        0
    } else {
        let e = evs.last();
        let hit = in_window(e, now, w) && by_agent(e, who) && bucket_of(e, now, w) == k;
        bucket_count(evs.drop_last(), now, w, who, k) + if hit { 1nat } else { 0nat }
    }
}

proof fn lemma_counts_bounded(evs: Seq<Event>, now: int, w: MetricsWindow, who: Option<Seq<char>>, cat: Option<int>, sev: Option<int>, k: int)
    ensures
        event_count(evs, now, w, who, cat, sev) <= evs.len(),
        bucket_count(evs, now, w, who, k) <= evs.len(),
    decreases evs.len(),
{
    if evs.len() > 0 {
        lemma_counts_bounded(evs.drop_last(), now, w, who, cat, sev, k);
    }
}

/// Per-category, per-severity and per-bucket counts of agent `who` (all
/// agents when None): what each field holds.
pub open spec fn counts_match(by_category: Seq<usize>, by_severity: Seq<usize>, timeline: Seq<u64>,
    evs: Seq<Event>, now: int, w: MetricsWindow, who: Option<Seq<char>>) -> bool {
    &&& by_category.len() == 5
    &&& forall|c: int| 0 <= c < 5 ==> #[trigger] by_category[c] as nat == event_count(evs, now, w, who, Some(c), None)
    &&& by_severity.len() == 3
    &&& forall|v: int| 0 <= v < 3 ==> #[trigger] by_severity[v] as nat == event_count(evs, now, w, who, None, Some(v))
    &&& timeline.len() == window_buckets(w).0
    &&& forall|k: int| 0 <= k < timeline.len() ==> #[trigger] timeline[k] as nat == bucket_count(evs, now, w, who, k)
}

/// Metrics of agent `who` (all agents when None): the total and the counts.
pub open spec fn metrics_match(total: nat, by_category: Seq<usize>, by_severity: Seq<usize>, timeline: Seq<u64>,
    evs: Seq<Event>, now: int, w: MetricsWindow, who: Option<Seq<char>>) -> bool {
    &&& total == event_count(evs, now, w, who, None, None)
    &&& counts_match(by_category, by_severity, timeline, evs, now, w, who)
}

/// Counts the events of agent `who` (all when None) in the window.
fn count_events(evs: &Vec<Event>, now: i64, w: MetricsWindow, who: Option<&str>) -> (r: (usize, [usize; 5], [usize; 3], Vec<u64>))
    ensures
        metrics_match(r.0 as nat, r.1@, r.2@, r.3@, evs@, now as int, w,
            match who { Some(h) => Some(h@), None => None }),
{
    let ghost wh = match who { Some(h) => Some(h@), None => None::<Seq<char>> };
    let wms = w.as_ms();
    let (nb, bms) = w.buckets();
    let cutoff: i128 = now as i128 - wms as i128;
    let mut total: usize = 0;
    let mut cats: Vec<usize> = vec![0, 0, 0, 0, 0];
    let mut sevs: Vec<usize> = vec![0, 0, 0];
    let mut tl: Vec<u64> = Vec::new();
    let mut k: usize = 0;
    while k < nb
        invariant
            k <= nb,
            tl@.len() == k,
            forall|j: int| 0 <= j < k ==> #[trigger] tl@[j] == 0,
        decreases nb - k,
    {
        tl.push(0);
        k += 1;
    }
    let mut i: usize = 0;
    while i < evs.len()
        invariant
            i <= evs.len(),
            wh == match who { Some(h) => Some(h@), None => None::<Seq<char>> },
            wms as int == window_ms(w),
            (nb as int, bms as int) == window_buckets(w),
            cutoff == now as int - wms as int,
            total as nat == event_count(evs@.take(i as int), now as int, w, wh, None, None),
            cats@.len() == 5,
            forall|c: int| 0 <= c < 5 ==> #[trigger] cats@[c] as nat == event_count(evs@.take(i as int), now as int, w, wh, Some(c), None),
            sevs@.len() == 3,
            forall|v: int| 0 <= v < 3 ==> #[trigger] sevs@[v] as nat == event_count(evs@.take(i as int), now as int, w, wh, None, Some(v)),
            tl@.len() == nb,
            forall|j: int| 0 <= j < nb ==> #[trigger] tl@[j] as nat == bucket_count(evs@.take(i as int), now as int, w, wh, j),
        decreases evs.len() - i,
    {
        let e = &evs[i];
        let ghost pre = evs@.take(i as int);
        proof {
            assert(evs@.take(i + 1).drop_last() =~= pre);
            assert(evs@.take(i + 1).last() == *e);
            lemma_counts_bounded(pre, now as int, w, wh, None, None, 0);
        }
        let mine = match who {
            Some(h) => crate::text::str_eq(e.source.as_str(), h),
            None => true,
        };
        if (e.timestamp_ms as i128) > cutoff && mine {
            total = total + 1;
            let c = e.category.index();
            let s = e.severity.index();
            proof {
                lemma_counts_bounded(pre, now as int, w, wh, Some(c as int), Some(s as int), 0);
                lemma_counts_bounded(pre, now as int, w, wh, Some(c as int), None, 0);
                lemma_counts_bounded(pre, now as int, w, wh, None, Some(s as int), 0);
                assert(cats@[c as int] as nat == event_count(pre, now as int, w, wh, Some(c as int), None));
                assert(sevs@[s as int] as nat == event_count(pre, now as int, w, wh, None, Some(s as int)));
            }
            let v = cats[c] + 1;
            cats.set(c, v);
            let v2 = sevs[s] + 1;
            sevs.set(s, v2);
            let diff: i128 = now as i128 - e.timestamp_ms as i128;
            let age: i128 = if diff < i64::MIN as i128 { i64::MIN as i128 } else if diff > i64::MAX as i128 { i64::MAX as i128 } else { diff };
            let num: i128 = wms as i128 - age;
            assert(num == window_ms(w) - clamp64(now - e.timestamp_ms));
            let idx: i128 = num / (bms as i128);
            assert(idx == bucket_of(*e, now as int, w));
            if idx >= 0 && idx < nb as i128 {
                let b = idx as usize;
                proof {
                    lemma_counts_bounded(pre, now as int, w, wh, None, None, b as int);
                    assert(tl@[b as int] as nat == bucket_count(pre, now as int, w, wh, b as int));
                }
                let t = tl[b] + 1;
                tl.set(b, t);
            }
        }
        i += 1;
    }
    assert(evs@.take(evs.len() as int) =~= evs@);
    (total, [cats[0], cats[1], cats[2], cats[3], cats[4]], [sevs[0], sevs[1], sevs[2]], tl)
}


/// The source that stands for the hub itself.
pub open spec fn is_system(s: Seq<char>) -> bool {
    s == seq!['s', 'y', 's', 't', 'e', 'm']
}

/// Event `e` is in the window and comes from agent `h` (not the hub).
pub open spec fn source_hit(e: Event, now: int, w: MetricsWindow, h: Seq<char>) -> bool {
    in_window(e, now, w) && e.source@ == h && !is_system(h)
}

/// Agents with an event in the window among the first `n` events.
pub open spec fn window_sources(evs: Seq<Event>, now: int, w: MetricsWindow, n: int) -> Set<Seq<char>> {
    Set::new(|h: Seq<char>| exists|i: int| 0 <= i < n && #[trigger] source_hit(evs[i], now, w, h))
}

/// The agents that get a row: those with an event in the window, and every
/// agent of the directory.
pub open spec fn metric_handles(evs: Seq<Event>, now: int, w: MetricsWindow, dir: Set<Seq<char>>) -> Set<Seq<char>> {
    window_sources(evs, now, w, evs.len() as int).union(dir)
}

/// A row holds the metrics of its own agent.
pub open spec fn row_matches(m: AgentMetrics, evs: Seq<Event>, now: int, w: MetricsWindow) -> bool {
    metrics_match(m.total_events as nat, m.by_category@, m.by_severity@, m.timeline@, evs, now, w, Some(m.handle@))
}

/// The handles of the rows, in order.
pub open spec fn row_handles(rows: Seq<AgentMetrics>) -> Seq<Seq<char>> {
    Seq::new(rows.len(), |i: int| rows[i].handle@)
}

/// Rows in order of activity, most events first.
pub open spec fn by_activity(rows: Seq<AgentMetrics>) -> bool {
    forall|i: int, j: int| 0 <= i < j < rows.len() ==> rows[i].total_events >= rows[j].total_events
}

/// Collects the handles that get a row.
fn metric_handle_set(model: &Model, w: MetricsWindow, now: i64) -> (hs: StrSet)
    ensures
        hs.wf(),
        hs.set() == metric_handles(model.events@, now as int, w, model.directory.map().dom()),
{
    let mut hs = StrSet::new();
    let cutoff: i128 = now as i128 - w.as_ms() as i128;
    let sys = "system";
    proof { reveal_strlit("system"); }
    let mut i: usize = 0;
    while i < model.events.len()
        invariant
            i <= model.events.len(),
            cutoff == now as int - window_ms(w),
            sys@ == seq!['s', 'y', 's', 't', 'e', 'm'],
            hs.wf(),
            hs.set() == window_sources(model.events@, now as int, w, i as int),
        decreases model.events.len() - i,
    {
        let e = &model.events[i];
        let ghost before = hs.set();
        if (e.timestamp_ms as i128) > cutoff && !crate::text::str_eq(e.source.as_str(), sys) {
            hs.insert(e.source.clone());
            assert(hs.set() =~= window_sources(model.events@, now as int, w, i + 1)) by {
                assert(source_hit(model.events@[i as int], now as int, w, e.source@));
            }
        } else {
            assert(hs.set() =~= window_sources(model.events@, now as int, w, i + 1)) by {
                assert forall|h: Seq<char>| window_sources(model.events@, now as int, w, i + 1).contains(h)
                    implies before.contains(h) by {
                    let k = choose|k: int| 0 <= k < i + 1 && #[trigger] source_hit(model.events@[k], now as int, w, h);
                    if k == i {
                        assert(false);
                    }
                }
            }
        }
        i += 1;
    }
    let ghost evpart = hs.set();
    let mut j: usize = 0;
    while j < model.directory.entries.len()
        invariant
            j <= model.directory.entries.len(),
            hs.wf(),
            hs.set() == evpart.union(model.directory.key_seq().take(j as int).to_set()),
        decreases model.directory.entries.len() - j,
    {
        let k = model.directory.entries[j].0.clone();
        hs.insert(k);
        assert(model.directory.key_seq().take(j + 1) =~= model.directory.key_seq().take(j as int).push(model.directory.key_seq()[j as int]));
        proof { model.directory.key_seq().take(j as int).lemma_push_to_set_commute(model.directory.key_seq()[j as int]); }
        assert(hs.set() =~= evpart.union(model.directory.key_seq().take(j + 1).to_set()));
        j += 1;
    }
    assert(model.directory.key_seq().take(j as int) =~= model.directory.key_seq());
    assert(model.directory.key_seq().to_set() =~= model.directory.map().dom());
    hs
}


/// One row per member of `hs`, most active first.
fn agent_rows(evs: &Vec<Event>, w: MetricsWindow, now: i64, hs: &StrSet) -> (rows: Vec<AgentMetrics>)
    requires
        hs.wf(),
    ensures
        row_handles(rows@).to_multiset() == hs.item_seq().to_multiset(),
        forall|i: int| 0 <= i < rows@.len() ==> #[trigger] row_matches(rows@[i], evs@, now as int, w),
        by_activity(rows@),
{
    broadcast use vstd::seq_lib::group_to_multiset_ensures, vstd::seq_lib::to_multiset_insert;
    let mut rows: Vec<AgentMetrics> = Vec::new();
    let mut k: usize = 0;
    while k < hs.items.len()
        invariant
            k <= hs.items.len(),
            row_handles(rows@).to_multiset() == hs.item_seq().take(k as int).to_multiset(),
            forall|i: int| 0 <= i < rows@.len() ==> #[trigger] row_matches(rows@[i], evs@, now as int, w),
            by_activity(rows@),
        decreases hs.items.len() - k,
    {
        let h = &hs.items[k];
        let (total, cats, sevs, tl) = count_events(evs, now, w, Some(h.as_str()));
        let row = AgentMetrics { handle: h.clone(), total_events: total, by_category: cats, by_severity: sevs, timeline: tl };
        assert(row_matches(row, evs@, now as int, w));
        // stable: goes after every row with as many events or more
        let mut p: usize = 0;
        while p < rows.len() && rows[p].total_events >= total
            invariant
                p <= rows.len(),
                forall|i: int| 0 <= i < p ==> #[trigger] rows@[i].total_events >= total,
            decreases rows.len() - p,
        {
            p += 1;
        }
        let ghost old_rows = rows@;
        rows.insert(p, row);
        proof {
            old_rows.insert_ensures(p as int, row);
            assert(row_handles(rows@) =~= row_handles(old_rows).insert(p as int, row.handle@)) by {
                row_handles(old_rows).insert_ensures(p as int, row.handle@);
            }
            assert(hs.item_seq().take(k + 1) =~= hs.item_seq().take(k as int).push(hs.item_seq()[k as int]));
            assert(row.handle@ == hs.item_seq()[k as int]);
            vstd::seq_lib::to_multiset_insert(row_handles(old_rows), p as int, row.handle@);
            hs.item_seq().take(k as int).to_multiset_ensures();
            assert forall|i: int| 0 <= i < rows@.len() implies #[trigger] row_matches(rows@[i], evs@, now as int, w) by {
                if i > p { assert(rows@[i] == old_rows[i - 1]); }
            }
            assert forall|a: int, b: int| 0 <= a < b < rows@.len() implies rows@[a].total_events >= rows@[b].total_events by {
                if b < p {
                } else if b == p {
                    assert(rows@[a] == old_rows[a]);
                } else if a == p {
                    assert(rows@[b] == old_rows[b - 1]);
                    if b - 1 > p {
                        assert(old_rows[p as int].total_events >= old_rows[b - 1].total_events);
                    }
                } else if a < p {
                    assert(rows@[b] == old_rows[b - 1]);
                } else {
                    assert(rows@[a] == old_rows[a - 1]);
                    assert(rows@[b] == old_rows[b - 1]);
                }
            }
        }
        k += 1;
    }
    assert(hs.item_seq().take(k as int) =~= hs.item_seq());
    rows
}


/// `s` is the metrics snapshot of events `evs` and directory handles `dir`
/// over window `w` ending at `now`.
pub open spec fn snapshot_at(s: MetricsSnapshot, evs: Seq<Event>, dir: Set<Seq<char>>, w: MetricsWindow, now: int) -> bool {
    &&& s.window == w
    &&& counts_match(s.category_totals@, s.severity_totals@, s.global_timeline@, evs, now, w, None)
    &&& row_handles(s.agents@).no_duplicates()
    &&& row_handles(s.agents@).to_set() == metric_handles(evs, now, w, dir)
    &&& forall|i: int| 0 <= i < s.agents@.len() ==> #[trigger] row_matches(s.agents@[i], evs, now, w)
    &&& by_activity(s.agents@)
}

/// Metrics of the window ending at `now` (epoch ms): one row per agent of
/// the directory or with an event in the window (the hub's own events count
/// in the totals only), most active first.
pub fn compute_agent_metrics_at(model: &Model, window: MetricsWindow, now: i64) -> (s: MetricsSnapshot)
    ensures
        snapshot_at(s, model.events@, model.directory.map().dom(), window, now as int),
{
    let (_, category_totals, severity_totals, global_timeline) = count_events(&model.events, now, window, None);
    let hs = metric_handle_set(model, window, now);
    let agents = agent_rows(&model.events, window, now, &hs);
    proof {
        broadcast use vstd::seq_lib::group_to_multiset_ensures;
        let rh = row_handles(agents@);
        let items = hs.item_seq();
        items.lemma_multiset_has_no_duplicates();
        rh.lemma_multiset_has_no_duplicates_conv();
        assert forall|x: Seq<char>| rh.to_set().contains(x) <==> items.to_set().contains(x) by {
            rh.to_multiset_ensures();
            items.to_multiset_ensures();
            assert(rh.to_multiset().count(x) == items.to_multiset().count(x));
            assert(rh.contains(x) <==> items.contains(x));
        }
        assert(rh.to_set() =~= items.to_set());
    }
    MetricsSnapshot { window, agents, category_totals, severity_totals, global_timeline }
}

/// Metrics of the window ending now.
pub fn compute_agent_metrics(model: &Model, window: MetricsWindow) -> (s: MetricsSnapshot)
    ensures
        exists|now: i64| #[trigger] snapshot_at(s, model.events@, model.directory.map().dom(), window, now as int),
{
    let now = now_ms();
    compute_agent_metrics_at(model, window, now)
}

/// The per-category counts, and the per-severity counts, each add up to
/// the total: every event in the window has exactly one category and one
/// severity.
pub proof fn law_metrics_partition(evs: Seq<Event>, now: int, w: MetricsWindow, who: Option<Seq<char>>)
    ensures
        event_count(evs, now, w, who, Some(0), None) + event_count(evs, now, w, who, Some(1), None)
            + event_count(evs, now, w, who, Some(2), None) + event_count(evs, now, w, who, Some(3), None)
            + event_count(evs, now, w, who, Some(4), None) == event_count(evs, now, w, who, None, None),
        event_count(evs, now, w, who, None, Some(0)) + event_count(evs, now, w, who, None, Some(1))
            + event_count(evs, now, w, who, None, Some(2)) == event_count(evs, now, w, who, None, None),
    decreases evs.len(),
{
    if evs.len() > 0 {
        law_metrics_partition(evs.drop_last(), now, w, who);
    }
}

} // verus!
