//! Global search across agents, activity events, input history and commands.
use vstd::prelude::*;
use crate::store::Model;
use crate::strmap::StrSet;
use crate::model::{Agent, Event, HistoryEntry, opt_or, severity_name, event_category_name};
use crate::command::{Command, command_catalog, commands_matching, filter_commands, fuzzy_match};
use crate::text::{fuzzy, lower_seq, chars_of, lower_vec, string_of, concat, views};

verus! {

broadcast use vstd::string::group_string_axioms;

/// Kind of a search result.
#[derive(Debug, Clone, Copy, PartialEq, Eq, Structural)]
pub enum SearchCategory {
    Agent,
    Event,
    History,
    Command,
}

impl SearchCategory {
    /// Group heading.
    pub fn label(&self) -> (r: &'static str)
        ensures
            r@ == (match *self {
                SearchCategory::Agent => "Agents"@,
                SearchCategory::Event => "Events"@,
                SearchCategory::History => "History"@,
                SearchCategory::Command => "Commands"@,
            }),
    {
        match self {
            SearchCategory::Agent => "Agents",
            SearchCategory::Event => "Events",
            SearchCategory::History => "History",
            SearchCategory::Command => "Commands",
        }
    }
}

/// Where a search result leads.
#[derive(Debug, Clone)]
pub enum JumpTarget {
    AgentHandle(String),
    EventIndex(usize),
    HistoryIndex(usize),
    CommandName(String),
}

/// One search result.
#[derive(Debug, Clone)]
pub struct SearchResult {
    pub category: SearchCategory,
    pub primary: String,
    pub secondary: String,
    pub jump_target: JumpTarget,
}

/// A jump target with texts in place of strings.
pub enum JumpView {
    AgentHandle(Seq<char>),
    EventIndex(int),
    HistoryIndex(int),
    CommandName(Seq<char>),
}

/// A search result with texts in place of strings.
pub struct ResultView {
    pub category: SearchCategory,
    pub primary: Seq<char>,
    pub secondary: Seq<char>,
    pub jump: JumpView,
}

pub open spec fn result_view(r: SearchResult) -> ResultView {
    ResultView {
        category: r.category,
        primary: r.primary@,
        secondary: r.secondary@,
        jump: match r.jump_target {
            JumpTarget::AgentHandle(h) => JumpView::AgentHandle(h@),
            JumpTarget::EventIndex(i) => JumpView::EventIndex(i as int),
            JumpTarget::HistoryIndex(i) => JumpView::HistoryIndex(i as int),
            JumpTarget::CommandName(n) => JumpView::CommandName(n@),
        },
    }
}

pub open spec fn results_view(rs: Seq<SearchResult>) -> Seq<ResultView> {
    Seq::new(rs.len(), |i: int| result_view(rs[i]))
}

/// `s` cut to `max` characters, with "…" appended when it was longer.
pub open spec fn truncated(s: Seq<char>, max: int) -> Seq<char> {
    if s.len() <= max { s } else { s.take(max).push('…') }
}

/// `s` cut to `max` characters, with "…" appended when it was longer.
fn truncate_search(s: &str, max_len: usize) -> (r: String)
    ensures
        r@ == truncated(s@, max_len as int),
{
    let v = chars_of(s);
    if v.len() <= max_len {
        return s.to_owned();
    }
    let mut t: Vec<char> = Vec::new();
    let mut i: usize = 0;
    while i < max_len
        invariant
            i <= max_len < v.len(),
            t@ == v@.take(i as int),
        decreases max_len - i,
    {
        t.push(v[i]);
        assert(v@.take(i + 1) =~= v@.take(i as int).push(v@[i as int]));
        i += 1;
    }
    t.push('…');
    string_of(&t)
}

/// The first `n` elements of `s` (all of them when it is shorter).
pub open spec fn first_n<T>(s: Seq<T>, n: int) -> Seq<T> {
    if s.len() <= n { s } else { s.take(n) }
}

/// The non-empty results of `f` over `s`, in order.
pub open spec fn hits<A>(s: Seq<A>, f: spec_fn(A) -> Option<ResultView>) -> Seq<ResultView>
    decreases s.len(),
{
    if s.len() == 0 {
        Seq::empty()
    } else {
        let prev = hits(s.drop_last(), f);
        match f(s.last()) {
            Some(r) => prev.push(r),
            None => prev,
        }
    }
}

/// The hits of a prefix are a prefix of the hits.
pub proof fn lemma_hits_prefix<A>(s: Seq<A>, f: spec_fn(A) -> Option<ResultView>, k: int)
    requires
        0 <= k <= s.len(),
    ensures
        hits(s.take(k), f).len() <= hits(s, f).len(),
        hits(s, f).take(hits(s.take(k), f).len() as int) == hits(s.take(k), f),
    decreases s.len() - k,
{
    if k < s.len() {
        lemma_hits_prefix(s, f, k + 1);
        assert(s.take(k + 1).drop_last() =~= s.take(k));
        let a = hits(s.take(k), f);
        let b = hits(s.take(k + 1), f);
        assert(b.take(a.len() as int) =~= a);
        assert(hits(s, f).take(a.len() as int) =~= b.take(b.len() as int).take(a.len() as int));
    } else {
        assert(s.take(k) =~= s);
        assert(hits(s, f).take(hits(s, f).len() as int) =~= hits(s, f));
    }
}

/// The tags of an agent joined by single spaces, in the order they were added.
pub open spec fn joined(s: Seq<Seq<char>>) -> Seq<char>
    decreases s.len(),
{
    if s.len() == 0 {
        Seq::empty()
    } else if s.len() == 1 {
        s[0]
    } else {
        joined(s.drop_last()) + " "@ + s.last()
    }
}

/// Tags text of a handle ("" when it has none).
pub open spec fn tags_text(m: Model, h: Seq<char>) -> Seq<char> {
    if m.tags.map().dom().contains(h) { joined(m.tags.map()[h].item_seq()) } else { Seq::empty() }
}

/// Agent result for query `q`, if the agent matches it by handle, title, cwd, source or tags.
pub open spec fn agent_hit(m: Model, q: Seq<char>, a: Agent) -> Option<ResultView> {
    if fuzzy(q, a.handle@) || fuzzy(q, opt_or(a.title, ""@)) || fuzzy(q, a.cwd@)
        || fuzzy(q, opt_or(a.source, ""@)) || fuzzy(q, tags_text(m, a.handle@)) {
        Some(ResultView {
            category: SearchCategory::Agent,
            primary: a.handle@,
            secondary: opt_or(a.source, ""@) + " · "@ + opt_or(a.state, ""@) + " · "@ + a.cwd@,
            jump: JumpView::AgentHandle(a.handle@),
        })
    } else {
        None
    }
}

/// Event result for query `q` (the event at position `idx`), if its text or source matches.
pub open spec fn event_hit(q: Seq<char>, e: (int, Event)) -> Option<ResultView> {
    let ev = e.1;
    if fuzzy(q, ev.text@) || fuzzy(q, ev.source@) {
        Some(ResultView {
            category: SearchCategory::Event,
            primary: truncated(ev.text@, 80),
            secondary: severity_name(ev.severity) + " · "@ + event_category_name(ev.category) + " · "@ + ev.source@,
            jump: JumpView::EventIndex(e.0),
        })
    } else {
        None
    }
}

/// History result for query `q` (the entry at position `idx`), if its text or prefix matches.
pub open spec fn history_hit(q: Seq<char>, e: (int, HistoryEntry)) -> Option<ResultView> {
    let h = e.1;
    if fuzzy(q, h.text@) || fuzzy(q, h.prefix@) {
        Some(ResultView {
            category: SearchCategory::History,
            primary: h.text@,
            secondary: h.prefix@,
            jump: JumpView::HistoryIndex(e.0),
        })
    } else {
        None
    }
}

/// Command result.
pub open spec fn command_hit(c: Command) -> ResultView {
    ResultView { category: SearchCategory::Command, primary: c.name@, secondary: c.description@, jump: JumpView::CommandName(c.name@) }
}

/// Elements of `s` paired with their positions, newest (last) first.
pub open spec fn newest_first<T>(s: Seq<T>) -> Seq<(int, T)> {
    Seq::new(s.len(), |k: int| (s.len() - 1 - k, s[s.len() - 1 - k]))
}

/// Results of a global search for `query`: up to five agents (directory
/// order), up to five events and five history entries (newest first), and up
/// to five commands, in that order. An empty query finds nothing.
pub open spec fn search_results(m: Model, query: Seq<char>) -> Seq<ResultView> {
    if query.len() == 0 {
        Seq::empty()
    } else {
        let q = lower_seq(query);
        first_n(hits(m.directory.value_seq(), |a: Agent| agent_hit(m, q, a)), 5)
            + first_n(hits(newest_first(m.events@), |e: (int, Event)| event_hit(q, e)), 5)
            + first_n(hits(newest_first(m.history@), |e: (int, HistoryEntry)| history_hit(q, e)), 5)
            + first_n(Seq::new(commands_matching(command_catalog(), query).len(), |i: int| command_hit(commands_matching(command_catalog(), query)[i])), 5)
    }
}

proof fn lemma_hits_at<A>(s: Seq<A>, f: spec_fn(A) -> Option<ResultView>, k: int)
    requires
        0 <= k < s.len(),
        f(s[k]) is Some,
    ensures
        hits(s.take(k), f).len() < hits(s, f).len(),
        hits(s, f)[hits(s.take(k), f).len() as int] == f(s[k])->0,
{
    lemma_hits_prefix(s, f, k + 1);
    assert(s.take(k + 1).drop_last() =~= s.take(k));
    assert(s.take(k + 1).last() == s[k]);
    let a = hits(s.take(k), f);
    let b = hits(s.take(k + 1), f);
    assert(b == a.push(f(s[k])->0));
    assert(hits(s, f).take(b.len() as int)[a.len() as int] == b[a.len() as int]);
}

/// The agent `a` matches the lowercased query `q`: its handle, title,
/// working directory, source or tags (joined by spaces) hold the query's
/// characters in order.
pub open spec fn agent_matches(m: Model, q: Seq<char>, a: Agent) -> bool {
    fuzzy(q, a.handle@) || fuzzy(q, match a.title { Some(t) => t@, None => Seq::empty() }) || fuzzy(q, a.cwd@)
        || fuzzy(q, match a.source { Some(t) => t@, None => Seq::empty() }) || fuzzy(q, tags_text(m, a.handle@))
}

/// Global search finds an agent that matches the lowercased, non-empty
/// query (see `agent_matches`) as long as fewer than five agents before it
/// in the directory are found: among the first five results is one of
/// category Agent whose primary text is its handle and that jumps to it.
pub proof fn law_search_finds_agent(m: Model, query: Seq<char>, k: int)
    requires
        query.len() > 0,
        0 <= k < m.directory.value_seq().len(),
        agent_matches(m, lower_seq(query), m.directory.value_seq()[k]),
        hits(m.directory.value_seq().take(k), |a: Agent| agent_hit(m, lower_seq(query), a)).len() < 5,
    ensures
        exists|i: int| 0 <= i < 5 && i < search_results(m, query).len() && {
            let r = #[trigger] search_results(m, query)[i];
            let h = m.directory.value_seq()[k].handle@;
            r.category == SearchCategory::Agent && r.primary == h && r.jump == JumpView::AgentHandle(h)
        },
{
    reveal_strlit("");
    let s = m.directory.value_seq();
    let q = lower_seq(query);
    let f = |a: Agent| agent_hit(m, q, a);
    assert(opt_or(s[k].title, ""@) == (match s[k].title { Some(t) => t@, None => Seq::<char>::empty() }));
    assert(opt_or(s[k].source, ""@) == (match s[k].source { Some(t) => t@, None => Seq::<char>::empty() }));
    assert(f(s[k]) is Some);
    lemma_hits_at(s, f, k);
    let i = hits(s.take(k), f).len() as int;
    let agents = first_n(hits(s, f), 5);
    assert(agents[i] == hits(s, f)[i]);
    let rest = first_n(hits(newest_first(m.events@), |e: (int, Event)| event_hit(q, e)), 5)
        + first_n(hits(newest_first(m.history@), |e: (int, HistoryEntry)| history_hit(q, e)), 5)
        + first_n(Seq::new(commands_matching(command_catalog(), query).len(), |j: int| command_hit(commands_matching(command_catalog(), query)[j])), 5);
    assert(search_results(m, query) =~= agents + rest);
    assert(search_results(m, query)[i] == agents[i]);
}

/// Global search finds an event whose text or source holds the lowercased,
/// non-empty query's characters in order, as long as fewer than five newer
/// events are found: a result of category Event that jumps to it (at its
/// position `e` in the log) is among the results.
pub proof fn law_search_finds_event(m: Model, query: Seq<char>, e: int)
    requires
        query.len() > 0,
        0 <= e < m.events@.len(),
        fuzzy(lower_seq(query), m.events@[e].text@) || fuzzy(lower_seq(query), m.events@[e].source@),
        hits(newest_first(m.events@).take(m.events@.len() - 1 - e), |x: (int, Event)| event_hit(lower_seq(query), x)).len() < 5,
    ensures
        exists|i: int| 0 <= i < search_results(m, query).len() && {
            let r = #[trigger] search_results(m, query)[i];
            r.category == SearchCategory::Event && r.jump == JumpView::EventIndex(e)
        },
{
    let q = lower_seq(query);
    let s = newest_first(m.events@);
    let k = m.events@.len() - 1 - e;
    let f = |x: (int, Event)| event_hit(q, x);
    assert(s[k] == (e, m.events@[e]));
    assert(f(s[k]) is Some);
    lemma_hits_at(s, f, k);
    let j = hits(s.take(k), f).len() as int;
    let agents = first_n(hits(m.directory.value_seq(), |a: Agent| agent_hit(m, q, a)), 5);
    let evs = first_n(hits(s, f), 5);
    assert(evs[j] == hits(s, f)[j]);
    let rest = first_n(hits(newest_first(m.history@), |x: (int, HistoryEntry)| history_hit(q, x)), 5)
        + first_n(Seq::new(commands_matching(command_catalog(), query).len(), |c: int| command_hit(commands_matching(command_catalog(), query)[c])), 5);
    assert(search_results(m, query) =~= agents + (evs + rest));
    assert(search_results(m, query)[agents.len() + j] == evs[j]);
}

/// Global search finds a history entry whose text or prefix holds the
/// lowercased, non-empty query's characters in order, as long as fewer than
/// five newer entries are found: a result of category History with its text
/// that jumps to it (at its position `e`) is among the results.
pub proof fn law_search_finds_history(m: Model, query: Seq<char>, e: int)
    requires
        query.len() > 0,
        0 <= e < m.history@.len(),
        fuzzy(lower_seq(query), m.history@[e].text@) || fuzzy(lower_seq(query), m.history@[e].prefix@),
        hits(newest_first(m.history@).take(m.history@.len() - 1 - e), |x: (int, HistoryEntry)| history_hit(lower_seq(query), x)).len() < 5,
    ensures
        exists|i: int| 0 <= i < search_results(m, query).len() && {
            let r = #[trigger] search_results(m, query)[i];
            r.category == SearchCategory::History && r.primary == m.history@[e].text@ && r.jump == JumpView::HistoryIndex(e)
        },
{
    let q = lower_seq(query);
    let s = newest_first(m.history@);
    let k = m.history@.len() - 1 - e;
    let f = |x: (int, HistoryEntry)| history_hit(q, x);
    assert(s[k] == (e, m.history@[e]));
    assert(f(s[k]) is Some);
    lemma_hits_at(s, f, k);
    let j = hits(s.take(k), f).len() as int;
    let agents = first_n(hits(m.directory.value_seq(), |a: Agent| agent_hit(m, q, a)), 5);
    let evs = first_n(hits(newest_first(m.events@), |x: (int, Event)| event_hit(q, x)), 5);
    let his = first_n(hits(s, f), 5);
    assert(his[j] == hits(s, f)[j]);
    let cmds = first_n(Seq::new(commands_matching(command_catalog(), query).len(), |c: int| command_hit(commands_matching(command_catalog(), query)[c])), 5);
    assert(search_results(m, query) =~= agents + evs + (his + cmds));
    assert(search_results(m, query)[agents.len() + evs.len() + j] == his[j]);
}

/// Strings joined by single spaces.
fn join_space(items: &Vec<String>) -> (r: String)
    ensures
        r@ == joined(views(items@)),
{
    let mut r = String::new();
    let mut i: usize = 0;
    while i < items.len()
        invariant
            i <= items.len(),
            r@ == joined(views(items@).take(i as int)),
        decreases items.len() - i,
    {
        assert(views(items@).take(i + 1).drop_last() =~= views(items@).take(i as int));
        if i > 0 {
            r.append(" ");
        } else {
            assert(r@ =~= Seq::<char>::empty());
        }
        r.append(items[i].as_str());
        i += 1;
    }
    assert(views(items@).take(items.len() as int) =~= views(items@));
    r
}

/// The agent result for the lowercased query `ql`, if the agent matches.
fn agent_result(m: &Model, ql: &str, a: &Agent) -> (r: Option<SearchResult>)
    requires
        m.wf(),
    ensures
        match r {
            Some(x) => agent_hit(*m, ql@, *a) == Some(result_view(x)),
            None => agent_hit(*m, ql@, *a) is None,
        },
{
    let tags_str = match m.tags.get(a.handle.as_str()) {
        Some(set) => join_space(&set.items),
        None => String::new(),
    };
    assert(tags_str@ == tags_text(*m, a.handle@));
    let title = crate::model::opt_str(&a.title, "");
    let source = crate::model::opt_str(&a.source, "");
    if fuzzy_match(ql, a.handle.as_str()) || fuzzy_match(ql, title) || fuzzy_match(ql, a.cwd.as_str())
        || fuzzy_match(ql, source) || fuzzy_match(ql, tags_str.as_str()) {
        let mut sec = concat(source, " · ");
        sec.append(crate::model::opt_str(&a.state, ""));
        sec.append(" · ");
        sec.append(a.cwd.as_str());
        let r = SearchResult {
            category: SearchCategory::Agent,
            primary: a.handle.clone(),
            secondary: sec,
            jump_target: JumpTarget::AgentHandle(a.handle.clone()),
        };
        assert(result_view(r) == agent_hit(*m, ql@, *a)->0);
        Some(r)
    } else {
        None
    }
}

/// Matching agents for the lowercased query `ql`, at most five, in directory order.
fn search_agents(m: &Model, ql: &str) -> (r: Vec<SearchResult>)
    requires
        m.wf(),
    ensures
        results_view(r@) == first_n(hits(m.directory.value_seq(), |a: Agent| agent_hit(*m, ql@, a)), 5),
{
    let ghost f = |a: Agent| agent_hit(*m, ql@, a);
    let ghost all = m.directory.value_seq();
    let vals = &m.directory.entries;
    let mut res: Vec<SearchResult> = Vec::new();
    let mut i: usize = 0;
    while i < vals.len() && res.len() < 5
        invariant
            m.wf(),
            vals == &m.directory.entries,
            all == m.directory.value_seq(),
            f == |a: Agent| agent_hit(*m, ql@, a),
            i <= vals.len(),
            res.len() <= 5,
            results_view(res@) == hits(all.take(i as int), f),
        decreases vals.len() - i,
    {
        assert(all.take(i + 1).drop_last() =~= all.take(i as int));
        assert(all.take(i + 1).last() == vals@[i as int].1);
        let ghost before = res@;
        match agent_result(m, ql, &vals[i].1) {
            Some(x) => {
                res.push(x);
                assert(results_view(res@) =~= results_view(before).push(result_view(x)));
            },
            None => {},
        }
        i += 1;
    }
    proof {
        lemma_hits_prefix(all, f, i as int);
        if i == vals.len() {
            assert(all.take(i as int) =~= all);
        }

    }
    res
}

/// Matching events for the lowercased query `ql`, at most five, newest first.
fn search_events(m: &Model, ql: &str) -> (r: Vec<SearchResult>)
    ensures
        results_view(r@) == first_n(hits(newest_first(m.events@), |e: (int, Event)| event_hit(ql@, e)), 5),
{
    let ghost f = |e: (int, Event)| event_hit(ql@, e);
    let ghost all = newest_first(m.events@);
    let n = m.events.len();
    let mut res: Vec<SearchResult> = Vec::new();
    let mut k: usize = 0;
    while k < n && res.len() < 5
        invariant
            n == m.events.len(),
            all == newest_first(m.events@),
            f == |e: (int, Event)| event_hit(ql@, e),
            k <= n,
            res.len() <= 5,
            results_view(res@) == hits(all.take(k as int), f),
        decreases n - k,
    {
        let idx = n - 1 - k;
        let ev = &m.events[idx];
        assert(all.take(k + 1).drop_last() =~= all.take(k as int));
        assert(all.take(k + 1).last() == (idx as int, *ev));
        let ghost before = res@;
        if fuzzy_match(ql, ev.text.as_str()) || fuzzy_match(ql, ev.source.as_str()) {
            let mut sec = concat(ev.severity.as_str(), " · ");
            sec.append(ev.category.as_str());
            sec.append(" · ");
            sec.append(ev.source.as_str());
            let x = SearchResult {
                category: SearchCategory::Event,
                primary: truncate_search(ev.text.as_str(), 80),
                secondary: sec,
                jump_target: JumpTarget::EventIndex(idx),
            };
            res.push(x);
            assert(results_view(res@) =~= results_view(before).push(result_view(x)));
        }
        k += 1;
    }
    proof {
        lemma_hits_prefix(all, f, k as int);
        if k == n {
            assert(all.take(k as int) =~= all);
        }
    }
    res
}

/// Matching history entries for the lowercased query `ql`, at most five, newest first.
fn search_history(m: &Model, ql: &str) -> (r: Vec<SearchResult>)
    ensures
        results_view(r@) == first_n(hits(newest_first(m.history@), |e: (int, HistoryEntry)| history_hit(ql@, e)), 5),
{
    let ghost f = |e: (int, HistoryEntry)| history_hit(ql@, e);
    let ghost all = newest_first(m.history@);
    let n = m.history.len();
    let mut res: Vec<SearchResult> = Vec::new();
    let mut k: usize = 0;
    while k < n && res.len() < 5
        invariant
            n == m.history.len(),
            all == newest_first(m.history@),
            f == |e: (int, HistoryEntry)| history_hit(ql@, e),
            k <= n,
            res.len() <= 5,
            results_view(res@) == hits(all.take(k as int), f),
        decreases n - k,
    {
        let idx = n - 1 - k;
        let h = &m.history[idx];
        assert(all.take(k + 1).drop_last() =~= all.take(k as int));
        assert(all.take(k + 1).last() == (idx as int, *h));
        let ghost before = res@;
        if fuzzy_match(ql, h.text.as_str()) || fuzzy_match(ql, h.prefix.as_str()) {
            let x = SearchResult {
                category: SearchCategory::History,
                primary: h.text.clone(),
                secondary: h.prefix.clone(),
                jump_target: JumpTarget::HistoryIndex(idx),
            };
            res.push(x);
            assert(results_view(res@) =~= results_view(before).push(result_view(x)));
        }
        k += 1;
    }
    proof {
        lemma_hits_prefix(all, f, k as int);
        if k == n {
            assert(all.take(k as int) =~= all);
        }
    }
    res
}

/// The first five commands matching `query`.
fn search_commands(query: &str) -> (r: Vec<SearchResult>)
    ensures
        results_view(r@) == first_n(Seq::new(commands_matching(command_catalog(), query@).len(),
            |i: int| command_hit(commands_matching(command_catalog(), query@)[i])), 5),
{
    let cmds = filter_commands(query);
    let ghost all = Seq::new(cmds@.len(), |i: int| command_hit(cmds@[i]));
    let mut res: Vec<SearchResult> = Vec::new();
    let mut i: usize = 0;
    while i < cmds.len() && i < 5
        invariant
            i <= cmds.len(),
            i <= 5,
            all == Seq::new(cmds@.len(), |i: int| command_hit(cmds@[i])),
            results_view(res@) == all.take(i as int),
        decreases cmds.len() - i,
    {
        let c = cmds[i];
        let x = SearchResult {
            category: SearchCategory::Command,
            primary: c.name.to_owned(),
            secondary: c.description.to_owned(),
            jump_target: JumpTarget::CommandName(c.name.to_owned()),
        };
        let ghost before = res@;
        res.push(x);
        assert(results_view(res@) =~= results_view(before).push(result_view(x)));
        assert(all.take(i + 1) =~= all.take(i as int).push(all[i as int]));
        i += 1;
    }
    proof {
        if i == cmds.len() {
            assert(all.take(i as int) =~= all);
        }
    }
    res
}

/// Global search for `query` (see `search_results`).
pub fn global_search(model: &Model, query: &str) -> (r: Vec<SearchResult>)
    requires
        model.wf(),
    ensures
        results_view(r@) == search_results(*model, query@),
{
    if query.is_empty() {
        return Vec::new();
    }
    let ql = string_of(&lower_vec(&chars_of(query)));
    let mut results = search_agents(model, ql.as_str());
    let mut ev = search_events(model, ql.as_str());
    let mut hs = search_history(model, ql.as_str());
    let mut cs = search_commands(query);
    let ghost (a, b, c, d) = (results@, ev@, hs@, cs@);
    results.append(&mut ev);
    results.append(&mut hs);
    results.append(&mut cs);
    assert(results_view(results@) =~= results_view(a) + results_view(b) + results_view(c) + results_view(d));
    results
}

/// Display order of the result groups.
pub open spec fn category_rank(c: SearchCategory) -> int {
    match c {
        SearchCategory::Agent => 0,
        SearchCategory::Event => 1,
        SearchCategory::History => 2,
        SearchCategory::Command => 3,
    }
}

proof fn lemma_hits_category<A>(s: Seq<A>, f: spec_fn(A) -> Option<ResultView>, cat: SearchCategory)
    requires
        forall|a: A| #[trigger] f(a) is Some ==> f(a)->0.category == cat,
    ensures
        forall|k: int| 0 <= k < hits(s, f).len() ==> (#[trigger] hits(s, f)[k]).category == cat,
    decreases s.len(),
{
    if s.len() > 0 {
        lemma_hits_category(s.drop_last(), f, cat);
        let prev = hits(s.drop_last(), f);
        assert forall|k: int| 0 <= k < hits(s, f).len() implies (#[trigger] hits(s, f)[k]).category == cat by {
            if k < prev.len() {
                assert(hits(s, f)[k] == prev[k]);
            } else {
                assert(f(s.last()) is Some);
            }
        }
    }
}

/// Search results come in groups, agents first, then events, history and
/// commands, at most five in each group (so at most twenty in all), and a
/// blank query finds nothing.
pub proof fn law_search_groups(m: Model, query: Seq<char>)
    ensures
        search_results(m, query).len() <= 20,
        query.len() == 0 ==> search_results(m, query).len() == 0,
        forall|i: int, j: int| 0 <= i < j < search_results(m, query).len() ==>
            category_rank(#[trigger] search_results(m, query)[i].category) <= category_rank(#[trigger] search_results(m, query)[j].category),
        forall|i: int| 0 <= i && i + 5 < search_results(m, query).len() ==>
            (#[trigger] search_results(m, query)[i]).category != search_results(m, query)[i + 5].category,
{
    if query.len() > 0 {
        let q = lower_seq(query);
        let fa = |a: Agent| agent_hit(m, q, a);
        let fe = |e: (int, Event)| event_hit(q, e);
        let fh = |e: (int, HistoryEntry)| history_hit(q, e);
        let cm = commands_matching(command_catalog(), query);
        let a = first_n(hits(m.directory.value_seq(), fa), 5);
        let e = first_n(hits(newest_first(m.events@), fe), 5);
        let h = first_n(hits(newest_first(m.history@), fh), 5);
        let c = first_n(Seq::new(cm.len(), |i: int| command_hit(cm[i])), 5);
        lemma_hits_category(m.directory.value_seq(), fa, SearchCategory::Agent);
        lemma_hits_category(newest_first(m.events@), fe, SearchCategory::Event);
        lemma_hits_category(newest_first(m.history@), fh, SearchCategory::History);
        let r = a + e + h + c;
        assert(search_results(m, query) == r);
        assert forall|k: int| 0 <= k < r.len() implies category_rank((#[trigger] r[k]).category) == (
            if k < a.len() { 0int } else if k < a.len() + e.len() { 1int } else if k < a.len() + e.len() + h.len() { 2int } else { 3int }) by {
            if k < a.len() {
                assert(r[k] == a[k]);
            } else if k < a.len() + e.len() {
                assert(r[k] == e[k - a.len()]);
            } else if k < a.len() + e.len() + h.len() {
                assert(r[k] == h[k - a.len() - e.len()]);
            } else {
                assert(r[k] == c[k - a.len() - e.len() - h.len()]);
            }
        }
    }
}

} // verus!
