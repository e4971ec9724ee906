//! The in-memory data model: the agent directory, groups, activity log,
//! input history, and the user's persisted settings (pins, tags, snippets,
//! alert rules, macros, views, notes, aliases, hotkeys, templates, config).
use vstd::prelude::*;
use crate::strmap::{StrMap, StrSet, pairs_map};
use crate::msg::AgentStatus;
use crate::text::{first_colon, colon_prefix, chars_of, string_of, parse_u64, parse_unsigned};
use crate::model::{
    Agent, Event, HistoryEntry, StatusJoin, WorktreePsEntry, OrchSnapshot, AlertRule,
    RecordedMacro, ViewSnapshot, ScheduledTask, EVENTS_CAP, HISTORY_CAP, ALERT_RULES_CAP,
    MACROS_CAP, SAVED_VIEWS_CAP, SNIPPETS_CAP, SortMode, sort_mode_of, clone_opt,
};

verus! {

broadcast use vstd::string::group_string_axioms;

/// The data model. No I/O and no UI state.
pub struct Model {
    /// handle → agent.
    pub directory: StrMap<Agent>,
    /// group name → member handles.
    pub groups: StrMap<StrSet>,
    /// Activity log, oldest first, at most `EVENTS_CAP`.
    pub events: Vec<Event>,
    /// Input history, oldest first, at most `HISTORY_CAP`.
    pub history: Vec<HistoryEntry>,
    /// Bumped on every change that the views show.
    pub generation: u64,
    /// Status entries by pane key, kept for agents that have not arrived yet.
    pub pending_status: StrMap<StatusJoin>,
    pub worktree_ps: Vec<WorktreePsEntry>,
    pub orch_snapshot: Option<OrchSnapshot>,
    /// Configuration key → value.
    pub config: StrMap<String>,
    /// Pinned handles.
    pub pinned: StrSet,
    /// handle → tags.
    pub tags: StrMap<StrSet>,
    /// Snippet name → command text.
    pub snippets: StrMap<String>,
    pub alert_rules: Vec<AlertRule>,
    /// Macro name → macro.
    pub macros: StrMap<RecordedMacro>,
    /// View name → preset.
    pub saved_views: StrMap<ViewSnapshot>,
    /// handle → note.
    pub notes: StrMap<String>,
    /// Alias → expansion.
    pub aliases: StrMap<String>,
    /// Key → input text.
    pub hotkeys: StrMap<String>,
    /// Watched handles.
    pub watched: StrSet,
    /// Template name → body.
    pub templates: StrMap<String>,
    pub scheduled_tasks: Vec<ScheduledTask>,
    pub next_sched_id: usize,
}

/// The names of `m` after `name` is saved under a cap of `cap` entries: a
/// saved name moves to the back; a new one goes to the back, the front name
/// (saved longest ago) leaving first when `cap` names are kept.
pub open spec fn saved_order<V>(m: StrMap<V>, name: Seq<char>, cap: int) -> Seq<Seq<char>> {
    let ks = m.key_seq();
    if ks.contains(name) {
        ks.remove(m.pos(name)).push(name)
    } else if ks.len() >= cap {
        ks.drop_first().push(name)
    } else {
        ks.push(name)
    }
}

proof fn lemma_removed_gone<V>(o: StrMap<V>, r: StrMap<V>, k: Seq<char>)
    requires
        o.wf(),
        r.wf(),
        r.map() == o.map().remove(k),
    ensures
        !r.key_seq().contains(k),
{
    assert(!r.map().dom().contains(k));
}

proof fn lemma_first_removed<V>(o: StrMap<V>, r: StrMap<V>, k: Seq<char>)
    requires
        o.wf(),
        o.key_seq().len() > 0,
        o.pos(o.key_seq()[0]) == 0,
        r.key_seq() == o.key_seq().remove(0),
        !o.key_seq().contains(k),
    ensures
        r.key_seq() == o.key_seq().drop_first(),
        !r.key_seq().contains(k),
{
    assert(o.key_seq().remove(0) =~= o.key_seq().drop_first());
    if r.key_seq().contains(k) {
        let i = choose|i: int| 0 <= i < r.key_seq().len() && r.key_seq()[i] == k;
        assert(o.key_seq()[i + 1] == k);
    }
}

/// Storing a snippet named `name` is refused: `SNIPPETS_CAP` snippets are
/// stored and `name` is not one of them.
pub open spec fn snippets_full(m: Model, name: Seq<char>) -> bool {
    m.snippets.key_seq().len() >= SNIPPETS_CAP && !m.snippets.map().dom().contains(name)
}

/// `s` with `h` removed if it is a member, added otherwise.
pub open spec fn toggled(s: Set<Seq<char>>, h: Seq<char>) -> Set<Seq<char>> {
    if s.contains(h) { s.remove(h) } else { s.insert(h) }
}

/// A map of sets with `x` added to the set under `k` (created if needed).
pub open spec fn with_member(m: Map<Seq<char>, Set<Seq<char>>>, k: Seq<char>, x: Seq<char>) -> Map<Seq<char>, Set<Seq<char>>> {
    m.insert(k, (if m.dom().contains(k) { m[k] } else { Set::empty() }).insert(x))
}

/// A map of sets with `x` taken from the set under `k`; a set left empty is dropped.
pub open spec fn without_member(m: Map<Seq<char>, Set<Seq<char>>>, k: Seq<char>, x: Seq<char>) -> Map<Seq<char>, Set<Seq<char>>> {
    if !m.dom().contains(k) {
        m
    } else if m[k].remove(x).is_empty() {
        m.remove(k)
    } else {
        m.insert(k, m[k].remove(x))
    }
}

/// `x` is in the set under `k`.
pub open spec fn has_member(m: Map<Seq<char>, Set<Seq<char>>>, k: Seq<char>, x: Seq<char>) -> bool {
    m.dom().contains(k) && m[k].contains(x)
}

/// Pins and watches: toggling twice gives back the set, and toggling adds
/// exactly what was missing or takes exactly what was there.
pub proof fn law_toggle_twice(s: Set<Seq<char>>, h: Seq<char>)
    ensures
        toggled(toggled(s, h), h) == s,
        toggled(s, h).contains(h) == !s.contains(h),
        forall|x: Seq<char>| x != h ==> (#[trigger] toggled(s, h).contains(x) == s.contains(x)),
{
    assert(toggled(toggled(s, h), h) =~= s);
}

/// Tags and group members: after adding, the member is there; after
/// removing, it is not; adding then removing a member that was not there
/// gives back the map (also when the set did not exist before, as long as
/// no set of the map is empty); other members and keys are untouched.
pub proof fn law_members(m: Map<Seq<char>, Set<Seq<char>>>, k: Seq<char>, x: Seq<char>)
    ensures
        has_member(with_member(m, k, x), k, x),
        !has_member(without_member(m, k, x), k, x),
        forall|k2: Seq<char>, y: Seq<char>| (k2 != k || y != x) ==>
            (#[trigger] has_member(with_member(m, k, x), k2, y) == has_member(m, k2, y)),
        forall|k2: Seq<char>, y: Seq<char>| (k2 != k || y != x) ==>
            (#[trigger] has_member(without_member(m, k, x), k2, y) == has_member(m, k2, y)),
        !has_member(m, k, x) && (m.dom().contains(k) ==> !m[k].is_empty())
            ==> without_member(with_member(m, k, x), k, x) == m,
{
    if !has_member(m, k, x) && (m.dom().contains(k) ==> !m[k].is_empty()) {
        let w = with_member(m, k, x);
        if m.dom().contains(k) {
            assert(w[k].remove(x) =~= m[k]);
            assert(without_member(w, k, x) =~= m);
        } else {
            assert(w[k].remove(x) =~= Set::<Seq<char>>::empty());
            assert(without_member(w, k, x) =~= m);
        }
    }
    assert forall|k2: Seq<char>, y: Seq<char>| (k2 != k || y != x) implies
        (#[trigger] has_member(without_member(m, k, x), k2, y) == has_member(m, k2, y)) by {
        if m.dom().contains(k) && k2 == k {
            if m[k].remove(x).is_empty() {
                assert(m[k].remove(x).contains(y) == m[k].contains(y));
            }
        }
    }
}

/// Snippets, notes, aliases, hotkeys, templates and configuration: a stored
/// text is read back as stored, replaces any earlier one, leaves other keys
/// alone, and is gone after removal.
pub proof fn law_store_then_read(m: Map<Seq<char>, Seq<char>>, k: Seq<char>, v: Seq<char>, v2: Seq<char>)
    ensures
        m.insert(k, v).dom().contains(k) && m.insert(k, v)[k] == v,
        m.insert(k, v).insert(k, v2) == m.insert(k, v2),
        forall|k2: Seq<char>| k2 != k ==> (#[trigger] m.insert(k, v).dom().contains(k2)) == m.dom().contains(k2),
        !m.insert(k, v).remove(k).dom().contains(k),
{
    assert(m.insert(k, v).insert(k, v2) =~= m.insert(k, v2));
}

/// Every macro is stored under its own name.
pub open spec fn macros_named(m: Map<Seq<char>, RecordedMacro>) -> bool {
    forall|k: Seq<char>| #[trigger] m.dom().contains(k) ==> m[k].name@ == k
}

proof fn lemma_macros_by_name_named(ms: Seq<RecordedMacro>)
    ensures
        macros_named(macros_by_name(ms)),
    decreases ms.len(),
{
    if ms.len() > 0 {
        lemma_macros_by_name_named(ms.drop_last());
    }
}

/// A map of string sets whose sets are all well-formed.
pub open spec fn sets_wf(m: StrMap<StrSet>) -> bool {
    &&& m.wf()
    &&& forall|i: int| 0 <= i < m.value_seq().len() ==> (#[trigger] m.value_seq()[i]).wf()
}

/// The sets of a map of string sets, as mathematical sets.
pub open spec fn set_map(m: StrMap<StrSet>) -> Map<Seq<char>, Set<Seq<char>>> {
    Map::new(|k: Seq<char>| m.map().dom().contains(k), |k: Seq<char>| m.map()[k].set())
}

impl Model {
    /// Well-formed: no collection repeats a key, and the activity log and the
    /// history are within their caps.
    pub open spec fn wf(&self) -> bool {
        &&& self.directory.wf()
        &&& sets_wf(self.groups)
        &&& self.pending_status.wf()
        &&& self.config.wf()
        &&& self.pinned.wf()
        &&& sets_wf(self.tags)
        &&& self.snippets.wf()
        &&& self.macros.wf()
        &&& macros_named(self.macros.map())
        &&& self.saved_views.wf()
        &&& self.notes.wf()
        &&& self.aliases.wf()
        &&& self.hotkeys.wf()
        &&& self.watched.wf()
        &&& self.templates.wf()
        &&& self.events.len() <= EVENTS_CAP
        &&& self.history.len() <= HISTORY_CAP
    }

    /// An empty model.
    pub fn new() -> (m: Self)
        ensures
            m.wf(),
            m.directory.map() == Map::<Seq<char>, Agent>::empty(),
            m.groups.map() == Map::<Seq<char>, StrSet>::empty(),
            m.events@.len() == 0,
            m.history@.len() == 0,
            m.generation == 0,
            m.pending_status.map() == Map::<Seq<char>, StatusJoin>::empty(),
            m.worktree_ps@.len() == 0,
            m.orch_snapshot is None,
            m.config.text_map() == Map::<Seq<char>, Seq<char>>::empty(),
            m.pinned.set() == Set::<Seq<char>>::empty(),
            m.tags.map() == Map::<Seq<char>, StrSet>::empty(),
            m.snippets.text_map() == Map::<Seq<char>, Seq<char>>::empty(),
            m.alert_rules@.len() == 0,
            m.macros.map() == Map::<Seq<char>, RecordedMacro>::empty(),
            m.saved_views.map() == Map::<Seq<char>, ViewSnapshot>::empty(),
            m.notes.text_map() == Map::<Seq<char>, Seq<char>>::empty(),
            m.aliases.text_map() == Map::<Seq<char>, Seq<char>>::empty(),
            m.hotkeys.text_map() == Map::<Seq<char>, Seq<char>>::empty(),
            m.watched.set() == Set::<Seq<char>>::empty(),
            m.templates.text_map() == Map::<Seq<char>, Seq<char>>::empty(),
            m.scheduled_tasks@.len() == 0,
            m.next_sched_id == 1,
    {
        let m = Model {
            directory: StrMap::new(),
            groups: StrMap::new(),
            events: Vec::new(),
            history: Vec::new(),
            generation: 0,
            pending_status: StrMap::new(),
            worktree_ps: Vec::new(),
            orch_snapshot: None,
            config: StrMap::new(),
            pinned: StrSet::new(),
            tags: StrMap::new(),
            snippets: StrMap::new(),
            alert_rules: Vec::new(),
            macros: StrMap::new(),
            saved_views: StrMap::new(),
            notes: StrMap::new(),
            aliases: StrMap::new(),
            hotkeys: StrMap::new(),
            watched: StrSet::new(),
            templates: StrMap::new(),
            scheduled_tasks: Vec::new(),
            next_sched_id: 1,
        };
        assert(m.config.text_map() =~= Map::<Seq<char>, Seq<char>>::empty());
        assert(m.snippets.text_map() =~= Map::<Seq<char>, Seq<char>>::empty());
        assert(m.notes.text_map() =~= Map::<Seq<char>, Seq<char>>::empty());
        assert(m.aliases.text_map() =~= Map::<Seq<char>, Seq<char>>::empty());
        assert(m.hotkeys.text_map() =~= Map::<Seq<char>, Seq<char>>::empty());
        assert(m.templates.text_map() =~= Map::<Seq<char>, Seq<char>>::empty());
        m
    }

    // ──── activity log ────

    /// Appends `event`, first dropping the oldest event when the log is full.
    /// A zero timestamp is replaced by `now`.
    pub fn push_event_at(&mut self, event: Event, now: i64)
        requires
            old(self).wf(),
            old(self).generation < u64::MAX,
        ensures
            final(self).wf(),
            final(self).events@ == (if old(self).events@.len() >= EVENTS_CAP { old(self).events@.drop_first() } else { old(self).events@ }).push(
                if event.timestamp_ms == 0 { Event { timestamp_ms: now, ..event } } else { event }),
            *final(self) == (Model { events: final(self).events, generation: (old(self).generation + 1) as u64, ..*old(self) }),
    {
        let mut event = event;
        if self.events.len() >= EVENTS_CAP {
            self.events.remove(0);
        }
        if event.timestamp_ms == 0 {
            event.timestamp_ms = now;
        }
        self.events.push(event);
        self.generation = self.generation + 1;
    }

    /// Appends `event`, first dropping the oldest event when the log is full.
    /// A zero timestamp is replaced by the current time.
    pub fn push_event(&mut self, event: Event)
        requires
            old(self).wf(),
            old(self).generation < u64::MAX,
        ensures
            final(self).wf(),
            exists|now: i64| final(self).events@ == (if old(self).events@.len() >= EVENTS_CAP { old(self).events@.drop_first() } else { old(self).events@ }).push(
                if event.timestamp_ms == 0 { Event { timestamp_ms: now, ..event } } else { event }),
            *final(self) == (Model { events: final(self).events, generation: (old(self).generation + 1) as u64, ..*old(self) }),
    {
        let now = crate::model::now_ms();
        self.push_event_at(event, now);
    }

    /// Replaces the log with `events`, keeping only the newest `EVENTS_CAP`.
    pub fn apply_events(&mut self, events: Vec<Event>)
        requires
            old(self).wf(),
            old(self).generation < u64::MAX,
        ensures
            final(self).wf(),
            final(self).events@ == (if events@.len() > EVENTS_CAP { events@.skip(events@.len() - EVENTS_CAP) } else { events@ }),
            *final(self) == (Model { events: final(self).events, generation: (old(self).generation + 1) as u64, ..*old(self) }),
    {
        let mut q = events;
        if q.len() > EVENTS_CAP {
            let drop_n = q.len() - EVENTS_CAP;
            q = keep_from(q, drop_n);
        }
        self.events = q;
        self.generation = self.generation + 1;
    }

    /// Empties the activity log.
    pub fn clear_events(&mut self)
        requires
            old(self).generation < u64::MAX,
        ensures
            final(self).events@.len() == 0,
            *final(self) == (Model { events: final(self).events, generation: (old(self).generation + 1) as u64, ..*old(self) }),
    {
        self.events = Vec::new();
        self.generation = self.generation + 1;
    }

    // ──── pins and watches ────

    /// Whether `handle` is pinned.
    pub fn is_pinned(&self, handle: &str) -> (b: bool)
        ensures
            b == self.pinned.set().contains(handle@),
    {
        self.pinned.contains(handle)
    }

    /// Pins `handle` if it is not pinned, unpins it otherwise.
    pub fn toggle_pin(&mut self, handle: &str)
        requires
            old(self).wf(),
        ensures
            final(self).wf(),
            final(self).pinned.set() == toggled(old(self).pinned.set(), handle@),
            *final(self) == (Model { pinned: final(self).pinned, ..*old(self) }),
    {
        if !self.pinned.remove(handle) {
            self.pinned.insert(handle.to_owned());
        }
    }

    /// Replaces the pinned set.
    pub fn apply_pinned(&mut self, handles: Vec<String>)
        requires
            old(self).wf(),
        ensures
            final(self).wf(),
            final(self).pinned.set() == Seq::new(handles@.len(), |i: int| handles@[i]@).to_set(),
            *final(self) == (Model { pinned: final(self).pinned, ..*old(self) }),
    {
        self.pinned = StrSet::from_vec(handles);
    }

    /// Whether `handle` is watched.
    pub fn is_watched(&self, handle: &str) -> (b: bool)
        ensures
            b == self.watched.set().contains(handle@),
    {
        self.watched.contains(handle)
    }

    /// Watches `handle` if it is not watched, unwatches it otherwise.
    pub fn toggle_watch(&mut self, handle: &str)
        requires
            old(self).wf(),
        ensures
            final(self).wf(),
            final(self).watched.set() == toggled(old(self).watched.set(), handle@),
            *final(self) == (Model { watched: final(self).watched, ..*old(self) }),
    {
        if !self.watched.remove(handle) {
            self.watched.insert(handle.to_owned());
        }
    }

    /// Replaces the watched set.
    pub fn apply_watched(&mut self, handles: Vec<String>)
        requires
            old(self).wf(),
        ensures
            final(self).wf(),
            final(self).watched.set() == Seq::new(handles@.len(), |i: int| handles@[i]@).to_set(),
            *final(self) == (Model { watched: final(self).watched, ..*old(self) }),
    {
        self.watched = StrSet::from_vec(handles);
    }

    // ──── templates ────

    /// Stores or replaces a command template.
    pub fn add_template(&mut self, name: &str, body: &str)
        requires
            old(self).wf(),
        ensures
            final(self).wf(),
            final(self).templates.text_map() == old(self).templates.text_map().insert(name@, body@),
            *final(self) == (Model { templates: final(self).templates, ..*old(self) }),
    {
        self.templates.set_text(name, body);
    }

    /// Removes a command template.
    pub fn remove_template(&mut self, name: &str)
        requires
            old(self).wf(),
        ensures
            final(self).wf(),
            final(self).templates.text_map() == old(self).templates.text_map().remove(name@),
            *final(self) == (Model { templates: final(self).templates, ..*old(self) }),
    {
        self.templates.remove_text(name);
    }

    /// The body of a command template.
    pub fn get_template(&self, name: &str) -> (r: Option<&String>)
        requires
            self.wf(),
        ensures
            match r {
                Some(s) => self.templates.text_map().dom().contains(name@) && s@ == self.templates.text_map()[name@],
                None => !self.templates.text_map().dom().contains(name@),
            },
    {
        self.templates.get_text(name)
    }

    /// Replaces all command templates.
    pub fn apply_templates(&mut self, templates: StrMap<String>)
        requires
            templates.wf(),
        ensures
            final(self).templates == templates,
            *final(self) == (Model { templates: final(self).templates, ..*old(self) }),
    {
        self.templates = templates;
    }

    // ──── scheduler ────

    /// Queues a task and returns its id; ids count up from 1, wrapping.
    pub fn add_scheduled_task(&mut self, command: String, fire_at_ms: u64, repeat_ms: Option<u64>) -> (id: usize)
        ensures
            id == old(self).next_sched_id,
            final(self).next_sched_id == (if old(self).next_sched_id == usize::MAX { 0 } else { (old(self).next_sched_id + 1) as usize }),
            final(self).scheduled_tasks@ == old(self).scheduled_tasks@.push(
                ScheduledTask { id, command, fire_at_ms, repeat_interval_ms: repeat_ms }),
            *final(self) == (Model { scheduled_tasks: final(self).scheduled_tasks, next_sched_id: final(self).next_sched_id, ..*old(self) }),
    {
        let id = self.next_sched_id;
        self.next_sched_id = self.next_sched_id.wrapping_add(1);
        self.scheduled_tasks.push(ScheduledTask { id, command, fire_at_ms, repeat_interval_ms: repeat_ms });
        id
    }

    /// Drops every task with the given id.
    pub fn remove_scheduled_task(&mut self, id: usize)
        ensures
            final(self).scheduled_tasks@ == tasks_without(old(self).scheduled_tasks@, id),
            *final(self) == (Model { scheduled_tasks: final(self).scheduled_tasks, ..*old(self) }),
    {
        let mut old_tasks: Vec<ScheduledTask> = Vec::new();
        std::mem::swap(&mut old_tasks, &mut self.scheduled_tasks);
        let mut kept: Vec<ScheduledTask> = Vec::new();
        let mut rest = old_tasks;
        let ghost all = rest@;
        let n = rest.len();
        let mut i: usize = 0;
        while rest.len() > 0
            invariant
                i <= all.len(),
                i + rest.len() == all.len(),
                all.len() == n,
                rest@ == all.skip(i as int),
                kept@ == tasks_without(all.take(i as int), id),
            decreases rest.len(),
        {
            let t = rest.remove(0);
            proof {
                assert(all.take(i + 1).drop_last() =~= all.take(i as int));
                assert(all[i as int] == t);
            }
            if t.id != id {
                kept.push(t);
            }
            proof { assert(all.skip(i + 1) =~= all.skip(i as int).drop_first()); }
            i += 1;
        }
        assert(all.take(i as int) =~= all);
        self.scheduled_tasks = kept;
    }

    // ──── tags ────

    /// Replaces all tags.
    pub fn apply_tags(&mut self, tags: StrMap<StrSet>)
        requires
            old(self).generation < u64::MAX,
            sets_wf(tags),
        ensures
            final(self).tags == tags,
            *final(self) == (Model { tags: final(self).tags, generation: (old(self).generation + 1) as u64, ..*old(self) }),
    {
        self.tags = tags;
        self.generation = self.generation + 1;
    }

    /// Gives `handle` the tag `tag` (a tag is held at most once).
    pub fn add_tag(&mut self, handle: &str, tag: &str)
        requires
            old(self).wf(),
            old(self).generation < u64::MAX,
        ensures
            final(self).wf(),
            set_map(final(self).tags) == with_member(set_map(old(self).tags), handle@, tag@),
            *final(self) == (Model { tags: final(self).tags, generation: (old(self).generation + 1) as u64, ..*old(self) }),
    {
        let ghost o = self.tags;
        let mut set = match self.tags.get(handle) {
            Some(s) => {
                proof { o.lemma_pos(o.pos(handle@)); }
                s.copy()
            },
            None => StrSet::new(),
        };
        proof {
            if o.map().dom().contains(handle@) {
                o.lemma_pos(o.pos(handle@));
            }
        }
        set.insert(tag.to_owned());
        let ghost newset = set;
        self.tags.insert(handle.to_owned(), set);
        proof { lemma_set_map_insert(o, self.tags, handle@, newset); }
        self.generation = self.generation + 1;
    }

    /// Takes `tag` from `handle`; a handle left without tags is dropped.
    pub fn remove_tag(&mut self, handle: &str, tag: &str)
        requires
            old(self).wf(),
            old(self).generation < u64::MAX,
        ensures
            final(self).wf(),
            set_map(final(self).tags) == without_member(set_map(old(self).tags), handle@, tag@),
            *final(self) == (Model { tags: final(self).tags, generation: (old(self).generation + 1) as u64, ..*old(self) }),
    {
        let ghost o = self.tags;
        match self.tags.get(handle) {
            Some(s) => {
                proof { o.lemma_pos(o.pos(handle@)); }
                let mut set = s.copy();
                set.remove(tag);
                if set.is_empty() {
                    self.tags.remove(handle);
                    proof { lemma_set_map_remove(o, self.tags, handle@); }
                } else {
                    let ghost newset = set;
                    self.tags.insert(handle.to_owned(), set);
                    proof { lemma_set_map_insert(o, self.tags, handle@, newset); }
                }
            },
            None => {
                assert(set_map(o) =~= set_map(self.tags));
            },
        }
        self.generation = self.generation + 1;
    }

    /// Whether `handle` has the tag `tag`.
    pub fn has_tag(&self, handle: &str, tag: &str) -> (b: bool)
        requires
            self.wf(),
        ensures
            b == (set_map(self.tags).dom().contains(handle@) && set_map(self.tags)[handle@].contains(tag@)),
    {
        match self.tags.get(handle) {
            Some(s) => s.contains(tag),
            None => false,
        }
    }

    // ──── groups ────

    /// Adds `handle` to group `name`, creating the group if needed.
    pub fn join_group(&mut self, name: &str, handle: &str)
        requires
            old(self).wf(),
        ensures
            final(self).wf(),
            set_map(final(self).groups) == with_member(set_map(old(self).groups), name@, handle@),
            *final(self) == (Model { groups: final(self).groups, ..*old(self) }),
    {
        let ghost o = self.groups;
        let mut set = match self.groups.get(name) {
            Some(s) => {
                proof { o.lemma_pos(o.pos(name@)); }
                s.copy()
            },
            None => StrSet::new(),
        };
        proof {
            if o.map().dom().contains(name@) {
                o.lemma_pos(o.pos(name@));
            }
        }
        set.insert(handle.to_owned());
        let ghost newset = set;
        self.groups.insert(name.to_owned(), set);
        proof { lemma_set_map_insert(o, self.groups, name@, newset); }
    }

    /// Takes `handle` out of group `name`; a group left empty is dropped.
    /// Returns whether `handle` was a member.
    pub fn leave_group(&mut self, name: &str, handle: &str) -> (removed: bool)
        requires
            old(self).wf(),
        ensures
            final(self).wf(),
            removed == (set_map(old(self).groups).dom().contains(name@) && set_map(old(self).groups)[name@].contains(handle@)),
            set_map(final(self).groups) == without_member(set_map(old(self).groups), name@, handle@),
            *final(self) == (Model { groups: final(self).groups, ..*old(self) }),
    {
        let ghost o = self.groups;
        match self.groups.get(name) {
            Some(s) => {
                proof { o.lemma_pos(o.pos(name@)); }
                let mut set = s.copy();
                let removed = set.remove(handle);
                if set.is_empty() {
                    self.groups.remove(name);
                    proof { lemma_set_map_remove(o, self.groups, name@); }
                } else {
                    let ghost newset = set;
                    self.groups.insert(name.to_owned(), set);
                    proof { lemma_set_map_insert(o, self.groups, name@, newset); }
                }
                removed
            },
            None => {
                assert(set_map(o) =~= set_map(self.groups));
                false
            },
        }
    }

    /// Whether `handle` is a member of group `name`.
    pub fn in_group(&self, name: &str, handle: &str) -> (b: bool)
        requires
            self.wf(),
        ensures
            b == (set_map(self.groups).dom().contains(name@) && set_map(self.groups)[name@].contains(handle@)),
    {
        match self.groups.get(name) {
            Some(s) => {
                proof { self.groups.lemma_pos(self.groups.pos(name@)); }
                s.contains(handle)
            },
            None => false,
        }
    }

    /// The members of group `name`, in the order they joined; None if there is no such group.
    pub fn group_members(&self, name: &str) -> (r: Option<Vec<String>>)
        requires
            self.wf(),
        ensures
            match r {
                Some(v) => set_map(self.groups).dom().contains(name@)
                    && crate::text::views(v@) == self.groups.map()[name@].item_seq(),
                None => !set_map(self.groups).dom().contains(name@),
            },
    {
        match self.groups.get(name) {
            Some(s) => {
                let mut out: Vec<String> = Vec::new();
                let mut i: usize = 0;
                while i < s.items.len()
                    invariant
                        i <= s.items.len(),
                        out@.len() == i,
                        forall|j: int| 0 <= j < i ==> #[trigger] out@[j]@ == s.items@[j]@,
                    decreases s.items.len() - i,
                {
                    out.push(s.items[i].clone());
                    i += 1;
                }
                assert(crate::text::views(out@) =~= s.item_seq());
                Some(out)
            },
            None => None,
        }
    }

    // ──── snippets ────

    /// Stores or replaces a snippet. A new name is refused once
    /// `SNIPPETS_CAP` snippets are stored; replacing one always works.
    pub fn add_snippet(&mut self, name: &str, text: &str)
        requires
            old(self).wf(),
            old(self).generation < u64::MAX,
        ensures
            final(self).wf(),
            snippets_full(*old(self), name@) ==> *final(self) == *old(self),
            !snippets_full(*old(self), name@) ==> final(self).snippets.text_map() == old(self).snippets.text_map().insert(name@, text@),
            !snippets_full(*old(self), name@) ==> *final(self) == (Model { snippets: final(self).snippets,
                generation: (old(self).generation + 1) as u64, ..*old(self) }),
            old(self).snippets.key_seq().len() <= SNIPPETS_CAP ==> final(self).snippets.key_seq().len() <= SNIPPETS_CAP,
    {
        if self.snippets.len() >= SNIPPETS_CAP && !self.snippets.contains_key(name) {
            return;
        }
        self.snippets.set_text(name, text);
        self.generation = self.generation + 1;
    }

    /// Whether storing a snippet named `name` is refused: the cap is
    /// reached and the name is new.
    pub fn snippet_refused(&self, name: &str) -> (r: bool)
        requires
            self.wf(),
        ensures
            r == snippets_full(*self, name@),
    {
        self.snippets.len() >= SNIPPETS_CAP && !self.snippets.contains_key(name)
    }

    /// Removes a snippet.
    pub fn remove_snippet(&mut self, name: &str)
        requires
            old(self).wf(),
            old(self).generation < u64::MAX,
        ensures
            final(self).wf(),
            final(self).snippets.text_map() == old(self).snippets.text_map().remove(name@),
            *final(self) == (Model { snippets: final(self).snippets, generation: (old(self).generation + 1) as u64, ..*old(self) }),
    {
        self.snippets.remove_text(name);
        self.generation = self.generation + 1;
    }

    /// The text of a snippet.
    pub fn get_snippet(&self, name: &str) -> (r: Option<&String>)
        requires
            self.wf(),
        ensures
            match r {
                Some(s) => self.snippets.text_map().dom().contains(name@) && s@ == self.snippets.text_map()[name@],
                None => !self.snippets.text_map().dom().contains(name@),
            },
    {
        self.snippets.get_text(name)
    }

    /// Replaces all snippets.
    pub fn apply_snippets(&mut self, snippets: StrMap<String>)
        requires
            snippets.wf(),
        ensures
            final(self).snippets == snippets,
            *final(self) == (Model { snippets: final(self).snippets, ..*old(self) }),
    {
        self.snippets = snippets;
    }

    // ──── notes ────

    /// Stores or replaces the note of an agent.
    pub fn add_note(&mut self, handle: &str, text: &str)
        requires
            old(self).wf(),
            old(self).generation < u64::MAX,
        ensures
            final(self).wf(),
            final(self).notes.text_map() == old(self).notes.text_map().insert(handle@, text@),
            *final(self) == (Model { notes: final(self).notes, generation: (old(self).generation + 1) as u64, ..*old(self) }),
    {
        self.notes.set_text(handle, text);
        self.generation = self.generation + 1;
    }

    /// Removes the note of an agent.
    pub fn remove_note(&mut self, handle: &str)
        requires
            old(self).wf(),
            old(self).generation < u64::MAX,
        ensures
            final(self).wf(),
            final(self).notes.text_map() == old(self).notes.text_map().remove(handle@),
            *final(self) == (Model { notes: final(self).notes, generation: (old(self).generation + 1) as u64, ..*old(self) }),
    {
        self.notes.remove_text(handle);
        self.generation = self.generation + 1;
    }

    /// The note of an agent.
    pub fn get_note(&self, handle: &str) -> (r: Option<&String>)
        requires
            self.wf(),
        ensures
            match r {
                Some(s) => self.notes.text_map().dom().contains(handle@) && s@ == self.notes.text_map()[handle@],
                None => !self.notes.text_map().dom().contains(handle@),
            },
    {
        self.notes.get_text(handle)
    }

    /// Replaces all notes.
    pub fn apply_notes(&mut self, notes: StrMap<String>)
        requires
            notes.wf(),
        ensures
            final(self).notes == notes,
            *final(self) == (Model { notes: final(self).notes, ..*old(self) }),
    {
        self.notes = notes;
    }

    // ──── aliases ────

    /// Stores or replaces an alias.
    pub fn add_alias(&mut self, name: &str, expansion: &str)
        requires
            old(self).wf(),
            old(self).generation < u64::MAX,
        ensures
            final(self).wf(),
            final(self).aliases.text_map() == old(self).aliases.text_map().insert(name@, expansion@),
            *final(self) == (Model { aliases: final(self).aliases, generation: (old(self).generation + 1) as u64, ..*old(self) }),
    {
        self.aliases.set_text(name, expansion);
        self.generation = self.generation + 1;
    }

    /// Removes an alias.
    pub fn remove_alias(&mut self, name: &str)
        requires
            old(self).wf(),
            old(self).generation < u64::MAX,
        ensures
            final(self).wf(),
            final(self).aliases.text_map() == old(self).aliases.text_map().remove(name@),
            *final(self) == (Model { aliases: final(self).aliases, generation: (old(self).generation + 1) as u64, ..*old(self) }),
    {
        self.aliases.remove_text(name);
        self.generation = self.generation + 1;
    }

    /// The expansion of an alias.
    pub fn get_alias(&self, name: &str) -> (r: Option<&String>)
        requires
            self.wf(),
        ensures
            match r {
                Some(s) => self.aliases.text_map().dom().contains(name@) && s@ == self.aliases.text_map()[name@],
                None => !self.aliases.text_map().dom().contains(name@),
            },
    {
        self.aliases.get_text(name)
    }

    /// Replaces all aliases.
    pub fn apply_aliases(&mut self, aliases: StrMap<String>)
        requires
            aliases.wf(),
        ensures
            final(self).aliases == aliases,
            *final(self) == (Model { aliases: final(self).aliases, ..*old(self) }),
    {
        self.aliases = aliases;
    }

    // ──── hotkeys ────

    /// Binds or rebinds a hotkey.
    pub fn add_hotkey(&mut self, key: &str, command: &str)
        requires
            old(self).wf(),
            old(self).generation < u64::MAX,
        ensures
            final(self).wf(),
            final(self).hotkeys.text_map() == old(self).hotkeys.text_map().insert(key@, command@),
            *final(self) == (Model { hotkeys: final(self).hotkeys, generation: (old(self).generation + 1) as u64, ..*old(self) }),
    {
        self.hotkeys.set_text(key, command);
        self.generation = self.generation + 1;
    }

    /// Unbinds a hotkey.
    pub fn remove_hotkey(&mut self, key: &str)
        requires
            old(self).wf(),
            old(self).generation < u64::MAX,
        ensures
            final(self).wf(),
            final(self).hotkeys.text_map() == old(self).hotkeys.text_map().remove(key@),
            *final(self) == (Model { hotkeys: final(self).hotkeys, generation: (old(self).generation + 1) as u64, ..*old(self) }),
    {
        self.hotkeys.remove_text(key);
        self.generation = self.generation + 1;
    }

    /// The input bound to a hotkey.
    pub fn get_hotkey(&self, key: &str) -> (r: Option<&String>)
        requires
            self.wf(),
        ensures
            match r {
                Some(s) => self.hotkeys.text_map().dom().contains(key@) && s@ == self.hotkeys.text_map()[key@],
                None => !self.hotkeys.text_map().dom().contains(key@),
            },
    {
        self.hotkeys.get_text(key)
    }

    /// Replaces all hotkeys.
    pub fn apply_hotkeys(&mut self, hotkeys: StrMap<String>)
        requires
            hotkeys.wf(),
        ensures
            final(self).hotkeys == hotkeys,
            *final(self) == (Model { hotkeys: final(self).hotkeys, ..*old(self) }),
    {
        self.hotkeys = hotkeys;
    }

    // ──── alert rules ────

    /// Adds an alert rule unless `ALERT_RULES_CAP` rules exist already.
    pub fn add_alert_rule(&mut self, rule: AlertRule)
        requires
            old(self).generation < u64::MAX,
        ensures
            old(self).alert_rules@.len() < ALERT_RULES_CAP ==> *final(self) == (Model {
                alert_rules: final(self).alert_rules, generation: (old(self).generation + 1) as u64, ..*old(self) })
                && final(self).alert_rules@ == old(self).alert_rules@.push(rule),
            old(self).alert_rules@.len() >= ALERT_RULES_CAP ==> *final(self) == *old(self),
    {
        if self.alert_rules.len() < ALERT_RULES_CAP {
            self.alert_rules.push(rule);
            self.generation = self.generation + 1;
        }
    }

    /// Drops every alert rule with the given id.
    pub fn remove_alert_rule(&mut self, id: i64)
        requires
            old(self).generation < u64::MAX,
        ensures
            final(self).alert_rules@ == rules_without(old(self).alert_rules@, id),
            *final(self) == (Model { alert_rules: final(self).alert_rules, generation: (old(self).generation + 1) as u64, ..*old(self) }),
    {
        let mut rest: Vec<AlertRule> = Vec::new();
        std::mem::swap(&mut rest, &mut self.alert_rules);
        let mut kept: Vec<AlertRule> = Vec::new();
        let ghost all = rest@;
        let n = rest.len();
        let mut i: usize = 0;
        while rest.len() > 0
            invariant
                all.len() == n,
                i + rest.len() == n,
                rest@ == all.skip(i as int),
                kept@ == rules_without(all.take(i as int), id),
            decreases rest.len(),
        {
            let r = rest.remove(0);
            proof {
                assert(all.take(i + 1).drop_last() =~= all.take(i as int));
                assert(all[i as int] == r);
                assert(all.skip(i + 1) =~= all.skip(i as int).drop_first());
            }
            if r.id != id {
                kept.push(r);
            }
            i += 1;
        }
        assert(all.take(n as int) =~= all);
        self.alert_rules = kept;
        self.generation = self.generation + 1;
    }

    /// Replaces all alert rules.
    pub fn apply_alert_rules(&mut self, rules: Vec<AlertRule>)
        ensures
            *final(self) == (Model { alert_rules: rules, ..*old(self) }),
    {
        self.alert_rules = rules;
    }

    // ──── macros ────

    /// Stores or replaces a macro under its name; the names are kept in the
    /// order in which they were last saved. When `MACROS_CAP` macros exist
    /// and the name is new, the one saved longest ago is dropped first.
    pub fn add_macro(&mut self, m: RecordedMacro)
        requires
            old(self).wf(),
            old(self).generation < u64::MAX,
        ensures
            final(self).wf(),
            final(self).macros.map() == (if old(self).macros.key_seq().len() >= MACROS_CAP && !old(self).macros.map().dom().contains(m.name@) {
                old(self).macros.map().remove(old(self).macros.key_seq()[0])
            } else {
                old(self).macros.map()
            }).insert(m.name@, m),
            final(self).macros.key_seq() == saved_order(old(self).macros, m.name@, MACROS_CAP as int),
            *final(self) == (Model { macros: final(self).macros, generation: (old(self).generation + 1) as u64, ..*old(self) }),
    {
        let ghost o = self.macros;
        let ghost mv = m;
        if self.macros.contains_key(m.name.as_str()) {
            self.macros.remove(m.name.as_str());
            proof { lemma_removed_gone(o, self.macros, m.name@); }
        } else if self.macros.len() >= MACROS_CAP {
            let oldest = self.macros.entries[0].0.clone();
            proof { o.lemma_pos(0); }
            self.macros.remove(oldest.as_str());
            proof { lemma_first_removed(o, self.macros, m.name@); }
        }
        let name = m.name.clone();
        self.macros.insert(name, m);
        assert(self.macros.map() =~= (if o.key_seq().len() >= MACROS_CAP && !o.map().dom().contains(mv.name@) {
            o.map().remove(o.key_seq()[0]) } else { o.map() }).insert(mv.name@, mv));
        self.generation = self.generation + 1;
    }

    /// Removes a macro.
    pub fn remove_macro(&mut self, name: &str)
        requires
            old(self).wf(),
            old(self).generation < u64::MAX,
        ensures
            final(self).wf(),
            final(self).macros.map() == old(self).macros.map().remove(name@),
            *final(self) == (Model { macros: final(self).macros, generation: (old(self).generation + 1) as u64, ..*old(self) }),
    {
        self.macros.remove(name);
        self.generation = self.generation + 1;
    }

    /// A macro by name.
    pub fn get_macro(&self, name: &str) -> (r: Option<&RecordedMacro>)
        requires
            self.wf(),
        ensures
            r == (if self.macros.map().dom().contains(name@) { Some(&self.macros.map()[name@]) } else { None::<&RecordedMacro> }),
    {
        self.macros.get(name)
    }

    /// Replaces all macros, keyed by name (a later macro replaces an earlier one of the same name).
    pub fn apply_macros(&mut self, macros: Vec<RecordedMacro>)
        requires
            old(self).wf(),
        ensures
            final(self).wf(),
            final(self).macros.map() == macros_by_name(macros@),
            *final(self) == (Model { macros: final(self).macros, ..*old(self) }),
    {
        let mut m: StrMap<RecordedMacro> = StrMap::new();
        let mut rest = macros;
        let ghost all = rest@;
        let n = rest.len();
        let mut i: usize = 0;
        while rest.len() > 0
            invariant
                all.len() == n,
                i + rest.len() == n,
                rest@ == all.skip(i as int),
                m.wf(),
                m.map() == macros_by_name(all.take(i as int)),
            decreases rest.len(),
        {
            let mac = rest.remove(0);
            proof {
                assert(all.take(i + 1).drop_last() =~= all.take(i as int));
                assert(all[i as int] == mac);
                assert(all.skip(i + 1) =~= all.skip(i as int).drop_first());
            }
            let name = mac.name.clone();
            m.insert(name, mac);
            i += 1;
        }
        assert(all.take(n as int) =~= all);
        proof { lemma_macros_by_name_named(all); }
        self.macros = m;
    }

    // ──── saved views ────

    /// Stores or replaces a view preset. When `SAVED_VIEWS_CAP` presets exist
    /// and the name is new, the oldest preset is dropped first.
    /// The names are kept in the order in which they were last saved; when
    /// `SAVED_VIEWS_CAP` views exist and the name is new, the one saved
    /// longest ago is dropped first.
    pub fn add_saved_view(&mut self, name: String, snapshot: ViewSnapshot)
        requires
            old(self).wf(),
            old(self).generation < u64::MAX,
        ensures
            final(self).wf(),
            final(self).saved_views.map() == (if old(self).saved_views.key_seq().len() >= SAVED_VIEWS_CAP && !old(self).saved_views.map().dom().contains(name@) {
                old(self).saved_views.map().remove(old(self).saved_views.key_seq()[0])
            } else {
                old(self).saved_views.map()
            }).insert(name@, snapshot),
            final(self).saved_views.key_seq() == saved_order(old(self).saved_views, name@, SAVED_VIEWS_CAP as int),
            *final(self) == (Model { saved_views: final(self).saved_views, generation: (old(self).generation + 1) as u64, ..*old(self) }),
    {
        let ghost o = self.saved_views;
        let ghost (nv, sv) = (name@, snapshot);
        if self.saved_views.contains_key(name.as_str()) {
            self.saved_views.remove(name.as_str());
            proof { lemma_removed_gone(o, self.saved_views, name@); }
        } else if self.saved_views.len() >= SAVED_VIEWS_CAP {
            let oldest = self.saved_views.entries[0].0.clone();
            proof { o.lemma_pos(0); }
            self.saved_views.remove(oldest.as_str());
            proof { lemma_first_removed(o, self.saved_views, name@); }
        }
        self.saved_views.insert(name, snapshot);
        assert(self.saved_views.map() =~= (if o.key_seq().len() >= SAVED_VIEWS_CAP && !o.map().dom().contains(nv) {
            o.map().remove(o.key_seq()[0]) } else { o.map() }).insert(nv, sv));
        self.generation = self.generation + 1;
    }

    /// Removes a view preset; returns whether it existed.
    pub fn remove_saved_view(&mut self, name: &str) -> (existed: bool)
        requires
            old(self).wf(),
            old(self).generation < u64::MAX,
        ensures
            final(self).wf(),
            existed == old(self).saved_views.map().dom().contains(name@),
            final(self).saved_views.map() == old(self).saved_views.map().remove(name@),
            existed ==> *final(self) == (Model { saved_views: final(self).saved_views, generation: (old(self).generation + 1) as u64, ..*old(self) }),
            !existed ==> *final(self) == *old(self),
    {
        let existed = self.saved_views.remove(name).is_some();
        if existed {
            self.generation = self.generation + 1;
        }
        existed
    }

    /// A view preset by name.
    pub fn get_saved_view(&self, name: &str) -> (r: Option<&ViewSnapshot>)
        requires
            self.wf(),
        ensures
            r == (if self.saved_views.map().dom().contains(name@) { Some(&self.saved_views.map()[name@]) } else { None::<&ViewSnapshot> }),
    {
        self.saved_views.get(name)
    }

    /// Replaces all view presets (a later pair replaces an earlier one of the same name).
    pub fn apply_saved_views(&mut self, views: Vec<(String, ViewSnapshot)>)
        requires
            old(self).wf(),
        ensures
            final(self).wf(),
            final(self).saved_views.map() == pairs_map(views@),
            *final(self) == (Model { saved_views: final(self).saved_views, ..*old(self) }),
    {
        self.saved_views = StrMap::from_pairs(views);
    }

    // ──── history ────

    /// Appends an input line stamped `now`, first dropping the oldest entry
    /// when the history is full. The prefix is the text through its first ':'.
    pub fn push_history_at(&mut self, text: String, now: i64)
        requires
            old(self).wf(),
            old(self).generation < u64::MAX,
        ensures
            final(self).wf(),
            final(self).history@.len() == (if old(self).history@.len() >= HISTORY_CAP { old(self).history@.len() } else { old(self).history@.len() + 1 }),
            final(self).history@.drop_last() == (if old(self).history@.len() >= HISTORY_CAP { old(self).history@.drop_first() } else { old(self).history@ }),
            final(self).history@.last().id == 0,
            final(self).history@.last().timestamp_ms == now,
            final(self).history@.last().text == text,
            final(self).history@.last().prefix@ == colon_prefix(text@),
            *final(self) == (Model { history: final(self).history, generation: (old(self).generation + 1) as u64, ..*old(self) }),
    {
        let cs = chars_of(text.as_str());
        let mut i: usize = 0;
        while i < cs.len() && cs[i] != ':'
            invariant
                i <= cs.len(),
                cs@ == text@,
                forall|j: int| 0 <= j < i ==> cs@[j] != ':',
            decreases cs.len() - i,
        {
            i += 1;
        }
        let prefix = if i < cs.len() {
            let mut p: Vec<char> = Vec::new();
            let mut k: usize = 0;
            while k <= i
                invariant
                    i < cs.len(),
                    k <= i + 1,
                    p@ == cs@.take(k as int),
                decreases i + 1 - k,
            {
                p.push(cs[k]);
                assert(cs@.take(k + 1) =~= cs@.take(k as int).push(cs@[k as int]));
                k += 1;
            }
            proof { lemma_colon_prefix_found(text@, i as int); }
            string_of(&p)
        } else {
            proof { lemma_colon_prefix_none(text@); }
            String::new()
        };
        if self.history.len() >= HISTORY_CAP {
            self.history.remove(0);
        }
        self.history.push(HistoryEntry { id: 0, timestamp_ms: now, text, prefix });
        self.generation = self.generation + 1;
    }

    /// Appends an input line stamped with the current time (see `push_history_at`).
    pub fn push_history(&mut self, text: String)
        requires
            old(self).wf(),
            old(self).generation < u64::MAX,
        ensures
            final(self).wf(),
            final(self).history@.drop_last() == (if old(self).history@.len() >= HISTORY_CAP { old(self).history@.drop_first() } else { old(self).history@ }),
            final(self).history@.len() > 0,
            final(self).history@.last().id == 0,
            final(self).history@.last().text == text,
            final(self).history@.last().prefix@ == colon_prefix(text@),
            *final(self) == (Model { history: final(self).history, generation: (old(self).generation + 1) as u64, ..*old(self) }),
    {
        let now = crate::model::now_ms();
        self.push_history_at(text, now);
    }

    /// Replaces the history with `entries`, keeping only the newest `HISTORY_CAP`.
    pub fn apply_history(&mut self, entries: Vec<HistoryEntry>)
        requires
            old(self).wf(),
        ensures
            final(self).wf(),
            final(self).history@ == (if entries@.len() > HISTORY_CAP { entries@.skip(entries@.len() - HISTORY_CAP) } else { entries@ }),
            *final(self) == (Model { history: final(self).history, ..*old(self) }),
    {
        let mut q = entries;
        if q.len() > HISTORY_CAP {
            let drop_n = q.len() - HISTORY_CAP;
            q = keep_from(q, drop_n);
        }
        self.history = q;
    }


    // ──── directory updates ────

    /// `a` with the join fields of the directory's entry of the same handle,
    /// then overlaid with the pending status of its pane.
    pub fn merge_agent(&self, a: Agent) -> (r: Agent)
        requires
            self.wf(),
        ensures
            r == merged_agent(a, self.directory.map(), self.pending_status.map()),
    {
        let mut a = a;
        let ghost a0 = a;
        match self.directory.get(a.handle.as_str()) {
            Some(o) => {
                a.source = clone_opt(&o.source);
                a.state = clone_opt(&o.state);
                a.prompt = clone_opt(&o.prompt);
                a.tool_name = clone_opt(&o.tool_name);
                a.tool_input = clone_opt(&o.tool_input);
                a.last_assistant_msg = clone_opt(&o.last_assistant_msg);
            },
            None => {},
        }
        match self.pending_status.get(a.pane_key.as_str()) {
            Some(sj) => {
                a.source = Some(sj.source.clone());
                a.state = Some(sj.state.clone());
                a.prompt = clone_opt(&sj.prompt);
                a.tool_name = clone_opt(&sj.tool_name);
                a.tool_input = clone_opt(&sj.tool_input);
                if sj.last_assistant_msg.is_some() {
                    a.last_assistant_msg = clone_opt(&sj.last_assistant_msg);
                }
            },
            None => {},
        }
        a
    }

    /// Replaces the directory with `agents` (keyed by handle, a later agent
    /// replacing an earlier one of the same handle). Each agent keeps the
    /// status fields of its previous entry and takes any pending status of
    /// its pane.
    pub fn apply_agents(&mut self, agents: Vec<Agent>)
        requires
            old(self).wf(),
            old(self).generation < u64::MAX,
        ensures
            final(self).wf(),
            exists|keyed: Seq<Agent>| #[trigger] pane_keyed_all(agents@, keyed)
                && final(self).directory.map() == merge_all(keyed, old(self).directory.map(), old(self).pending_status.map()),
            *final(self) == (Model { directory: final(self).directory, generation: (old(self).generation + 1) as u64, ..*old(self) }),
    {
        let ghost mut keyed: Seq<Agent> = Seq::empty();
        let mut new_dir: StrMap<Agent> = StrMap::new();
        let mut rest = agents;
        let ghost all = rest@;
        let n = rest.len();
        let mut i: usize = 0;
        while rest.len() > 0
            invariant
                self.wf(),
                all.len() == n,
                i + rest.len() == n,
                rest@ == all.skip(i as int),
                new_dir.wf(),
                pane_keyed_all(all.take(i as int), keyed),
                new_dir.map() == merge_all(keyed, self.directory.map(), self.pending_status.map()),
            decreases rest.len(),
        {
            let mut a = rest.remove(0);
            proof {
                assert(all.take(i + 1).drop_last() =~= all.take(i as int));
                assert(all[i as int] == a);
                assert(all.skip(i + 1) =~= all.skip(i as int).drop_first());
            }
            let ghost a0 = a;
            let key = crate::text::concat(crate::text::concat(a.tab_id.as_str(), ":").as_str(), a.leaf_id.as_str());
            a.pane_key = key;
            proof {
                let old_keyed = keyed;
                keyed = keyed.push(a);
                assert(keyed.drop_last() =~= old_keyed);
                assert(pane_keyed(a0, a));
            }
            let merged = self.merge_agent(a);
            let h = merged.handle.clone();
            new_dir.insert(h, merged);
            i += 1;
        }
        assert(all.take(n as int) =~= all);
        assert(pane_keyed_all(agents@, keyed));
        self.directory = new_dir;
        self.generation = self.generation + 1;
    }

    /// Records hook statuses (keyed by pane key, a later status replacing an
    /// earlier one of the same pane) as pending, and applies them at once to
    /// the agents of those panes.
    pub fn apply_status(&mut self, statuses: Vec<AgentStatus>)
        requires
            old(self).wf(),
            old(self).generation < u64::MAX,
        ensures
            final(self).wf(),
            final(self).pending_status.map() == old(self).pending_status.map().union_prefer_right(status_map_of(statuses@)),
            final(self).directory.key_seq() == old(self).directory.key_seq(),
            final(self).directory.map() == Map::new(
                |h: Seq<char>| old(self).directory.map().dom().contains(h),
                |h: Seq<char>| status_applied(old(self).directory.map()[h], status_map_of(statuses@))),
            *final(self) == (Model { directory: final(self).directory, pending_status: final(self).pending_status,
                generation: (old(self).generation + 1) as u64, ..*old(self) }),
    {
        let ghost old_pending = self.pending_status.map();
        let mut statmap: StrMap<StatusJoin> = StrMap::new();
        let mut rest = statuses;
        let ghost all = rest@;
        let n = rest.len();
        let mut i: usize = 0;
        while rest.len() > 0
            invariant
                all.len() == n,
                i + rest.len() == n,
                rest@ == all.skip(i as int),
                statmap.wf(),
                statmap.map() == status_map_of(all.take(i as int)),
                self.pending_status.wf(),
                self.pending_status.map() == old_pending.union_prefer_right(status_map_of(all.take(i as int))),
                *self == (Model { pending_status: self.pending_status, ..*old(self) }),
                old(self).wf(),
            decreases rest.len(),
        {
            let st = rest.remove(0);
            proof {
                assert(all.take(i + 1).drop_last() =~= all.take(i as int));
                assert(all[i as int] == st);
                assert(all.skip(i + 1) =~= all.skip(i as int).drop_first());
            }
            let ghost key = st.pane_key@;
            let sj = StatusJoin {
                source: st.source,
                state: st.state,
                prompt: st.prompt,
                tool_name: st.tool_name,
                tool_input: st.tool_input,
                last_assistant_msg: st.last_assistant_msg,
            };
            let ghost prev = status_map_of(all.take(i as int));
            assert(old_pending.union_prefer_right(prev.insert(key, sj)) =~= old_pending.union_prefer_right(prev).insert(key, sj));
            statmap.insert(st.pane_key.clone(), sj.copy());
            self.pending_status.insert(st.pane_key, sj);
            i += 1;
        }
        assert(all.take(n as int) =~= all);

        let ghost od = self.directory;
        let mut entries: Vec<(String, Agent)> = Vec::new();
        std::mem::swap(&mut entries, &mut self.directory.entries);
        let m = entries.len();
        let mut done: Vec<(String, Agent)> = Vec::new();
        let mut j: usize = 0;
        while entries.len() > 0
            invariant
                statmap.wf(),
                od.entries@.len() == m,
                j + entries.len() == m,
                entries@ == od.entries@.skip(j as int),
                done@.len() == j,
                forall|k: int| 0 <= k < j ==> (#[trigger] done@[k]).0 == od.entries@[k].0
                    && done@[k].1 == status_applied(od.entries@[k].1, statmap.map()),
            decreases entries.len(),
        {
            let (h, a) = entries.remove(0);
            proof { assert(od.entries@[j as int] == (h, a)); }
            let mut a = a;
            match statmap.get(a.pane_key.as_str()) {
                Some(sj) => {
                    a.state = Some(sj.state.clone());
                    a.prompt = clone_opt(&sj.prompt);
                    a.tool_name = clone_opt(&sj.tool_name);
                    a.tool_input = clone_opt(&sj.tool_input);
                    if sj.last_assistant_msg.is_some() {
                        a.last_assistant_msg = clone_opt(&sj.last_assistant_msg);
                    }
                },
                None => {},
            }
            done.push((h, a));
            proof { assert(od.entries@.skip(j + 1) =~= od.entries@.skip(j as int).drop_first()); }
            j += 1;
        }
        self.directory.entries = done;
        proof {
            assert(self.directory.key_seq() =~= od.key_seq());
            assert(self.directory.map() =~= Map::new(
                |h: Seq<char>| od.map().dom().contains(h),
                |h: Seq<char>| status_applied(od.map()[h], status_map_of(all)))) by {
                assert forall|h: Seq<char>| self.directory.map().dom().contains(h) implies
                    self.directory.map()[h] == status_applied(od.map()[h], status_map_of(all)) by {
                    let p = self.directory.pos(h);
                    self.directory.lemma_pos(p);
                    od.lemma_pos(p);
                }
            }
        }
        self.generation = self.generation + 1;
    }

    // ──── orchestration and config ────

    /// Replaces the worktree summary.
    pub fn apply_worktree_ps(&mut self, entries: Vec<WorktreePsEntry>)
        requires
            old(self).generation < u64::MAX,
        ensures
            *final(self) == (Model { worktree_ps: entries, generation: (old(self).generation + 1) as u64, ..*old(self) }),
    {
        self.worktree_ps = entries;
        self.generation = self.generation + 1;
    }

    /// Replaces the orchestration snapshot.
    pub fn apply_orch_snapshot(&mut self, snapshot: OrchSnapshot)
        requires
            old(self).generation < u64::MAX,
        ensures
            *final(self) == (Model { orch_snapshot: Some(snapshot), generation: (old(self).generation + 1) as u64, ..*old(self) }),
    {
        self.orch_snapshot = Some(snapshot);
        self.generation = self.generation + 1;
    }

    /// Replaces the whole configuration.
    pub fn apply_config(&mut self, config: StrMap<String>)
        requires
            config.wf(),
        ensures
            *final(self) == (Model { config: config, ..*old(self) }),
    {
        self.config = config;
    }

    /// Sets one configuration value.
    pub fn set_config(&mut self, key: String, value: String)
        requires
            old(self).wf(),
        ensures
            final(self).wf(),
            final(self).config.text_map() == old(self).config.text_map().insert(key@, value@),
            *final(self) == (Model { config: final(self).config, ..*old(self) }),
    {
        let ghost o = self.config;
        let ghost kv = (key@, value@);
        self.config.insert(key, value);
        assert(self.config.text_map() =~= o.text_map().insert(kv.0, kv.1));
    }

    /// A configuration value, or `default` when unset.
    pub fn get_config(&self, key: &str, default: &str) -> (r: String)
        requires
            self.wf(),
        ensures
            r@ == config_or(self.config.text_map(), key@, default@),
    {
        match self.config.get_text(key) {
            Some(v) => v.clone(),
            None => default.to_owned(),
        }
    }

    /// The refresh interval in ms: config "refresh_interval_ms" (default "1500")
    /// read as a number, or 1500 when it is not one.
    pub fn refresh_interval_ms(&self) -> (r: u64)
        requires
            self.wf(),
        ensures
            r as int == (match parse_unsigned(config_or(self.config.text_map(), "refresh_interval_ms"@, "1500"@), u64::MAX as int) {
                Some(v) => v,
                None => 1500,
            }),
    {
        let s = self.get_config("refresh_interval_ms", "1500");
        match parse_u64(s.as_str()) {
            Some(v) => v,
            None => 1500,
        }
    }

    /// The theme name: config "theme", default "default".
    pub fn get_theme(&self) -> (r: &str)
        requires
            self.wf(),
        ensures
            r@ == config_or(self.config.text_map(), "theme"@, "default"@),
    {
        match self.config.get_text("theme") {
            Some(v) => v.as_str(),
            None => "default",
        }
    }

    /// The default directory filter: config "default_filter", default "".
    pub fn get_default_filter(&self) -> (r: &str)
        requires
            self.wf(),
        ensures
            r@ == config_or(self.config.text_map(), "default_filter"@, ""@),
    {
        match self.config.get_text("default_filter") {
            Some(v) => v.as_str(),
            None => "",
        }
    }

    /// The directory sort mode: config "sort", default by-worktree.
    pub fn sort_mode(&self) -> (r: SortMode)
        requires
            self.wf(),
        ensures
            r == sort_mode_of(config_or(self.config.text_map(), "sort"@, "by-worktree"@)),
    {
        let s = self.get_config("sort", "by-worktree");
        SortMode::from_str(s.as_str())
    }
}


/// An incoming agent with the status fields of the directory's entry of the
/// same handle (if any), then overlaid with the pending status of its pane
/// (if any); a pending status without a last assistant message keeps the
/// agent's.
pub open spec fn merged_agent(a: Agent, dir: Map<Seq<char>, Agent>, pending: Map<Seq<char>, StatusJoin>) -> Agent {
    let a1 = if dir.dom().contains(a.handle@) {
        let o = dir[a.handle@];
        Agent {
            source: o.source,
            state: o.state,
            prompt: o.prompt,
            tool_name: o.tool_name,
            tool_input: o.tool_input,
            last_assistant_msg: o.last_assistant_msg,
            ..a
        }
    } else {
        a
    };
    if pending.dom().contains(a1.pane_key@) {
        let sj = pending[a1.pane_key@];
        Agent {
            source: Some(sj.source),
            state: Some(sj.state),
            prompt: sj.prompt,
            tool_name: sj.tool_name,
            tool_input: sj.tool_input,
            last_assistant_msg: if sj.last_assistant_msg is Some { sj.last_assistant_msg } else { a1.last_assistant_msg },
            ..a1
        }
    } else {
        a1
    }
}

/// The directory built from incoming agents in order, each merged.
/// `b` is agent `a` with its pane key set to its tab id, ':' and its leaf id.
pub open spec fn pane_keyed(a: Agent, b: Agent) -> bool {
    b == (Agent { pane_key: b.pane_key, ..a }) && b.pane_key@ == a.tab_id@ + ":"@ + a.leaf_id@
}

/// Each agent of `keyed` is the one at the same place in `s`, pane key set.
pub open spec fn pane_keyed_all(s: Seq<Agent>, keyed: Seq<Agent>) -> bool {
    keyed.len() == s.len() && forall|i: int| 0 <= i < s.len() ==> #[trigger] pane_keyed(s[i], keyed[i])
}

pub open spec fn merge_all(s: Seq<Agent>, dir: Map<Seq<char>, Agent>, pending: Map<Seq<char>, StatusJoin>) -> Map<Seq<char>, Agent>
    decreases s.len(),
{
    if s.len() == 0 {
        Map::empty()
    } else {
        merge_all(s.drop_last(), dir, pending).insert(s.last().handle@, merged_agent(s.last(), dir, pending))
    }
}

/// The join of a status.
pub open spec fn status_join(st: AgentStatus) -> StatusJoin {
    StatusJoin {
        source: st.source,
        state: st.state,
        prompt: st.prompt,
        tool_name: st.tool_name,
        tool_input: st.tool_input,
        last_assistant_msg: st.last_assistant_msg,
    }
}

/// Statuses keyed by pane key; a later status replaces an earlier one of the same pane.
pub open spec fn status_map_of(s: Seq<AgentStatus>) -> Map<Seq<char>, StatusJoin>
    decreases s.len(),
{
    if s.len() == 0 {
        Map::empty()
    } else {
        status_map_of(s.drop_last()).insert(s.last().pane_key@, status_join(s.last()))
    }
}

/// An agent after a status update of its pane (the source is left as it was).
pub open spec fn status_applied(a: Agent, sm: Map<Seq<char>, StatusJoin>) -> Agent {
    if sm.dom().contains(a.pane_key@) {
        let sj = sm[a.pane_key@];
        Agent {
            state: Some(sj.state),
            prompt: sj.prompt,
            tool_name: sj.tool_name,
            tool_input: sj.tool_input,
            last_assistant_msg: if sj.last_assistant_msg is Some { sj.last_assistant_msg } else { a.last_assistant_msg },
            ..a
        }
    } else {
        a
    }
}

/// A configuration value, or `default` when `key` is unset.
pub open spec fn config_or(config: Map<Seq<char>, Seq<char>>, key: Seq<char>, default: Seq<char>) -> Seq<char> {
    if config.dom().contains(key) { config[key] } else { default }
}

/// `rules` without those with id `id`, order kept.
pub open spec fn rules_without(rules: Seq<AlertRule>, id: i64) -> Seq<AlertRule>
    decreases rules.len(),
{
    if rules.len() == 0 {
        Seq::empty()
    } else {
        let prev = rules_without(rules.drop_last(), id);
        if rules.last().id != id { prev.push(rules.last()) } else { prev }
    }
}

/// Macros keyed by name; a later macro replaces an earlier one of the same name.
pub open spec fn macros_by_name(ms: Seq<RecordedMacro>) -> Map<Seq<char>, RecordedMacro>
    decreases ms.len(),
{
    if ms.len() == 0 {
        Map::empty()
    } else {
        macros_by_name(ms.drop_last()).insert(ms.last().name@, ms.last())
    }
}

proof fn lemma_colon_prefix_found(t: Seq<char>, i: int)
    requires
        0 <= i < t.len(),
        t[i] == ':',
        forall|j: int| 0 <= j < i ==> t[j] != ':',
    ensures
        colon_prefix(t) == t.take(i + 1),
{
    let f = first_colon(t);
    assert(0 <= f < t.len() && t[f] == ':' && forall|j: int| 0 <= j < f ==> t[j] != ':');
    assert(f == i) by {
        if f < i { assert(t[f] != ':'); }
        if f > i { assert(t[i] != ':'); }
    }
}

proof fn lemma_colon_prefix_none(t: Seq<char>)
    requires
        forall|j: int| 0 <= j < t.len() ==> t[j] != ':',
    ensures
        colon_prefix(t) == Seq::<char>::empty(),
{
}

/// `tasks` without those with id `id`, order kept.
pub open spec fn tasks_without(tasks: Seq<ScheduledTask>, id: usize) -> Seq<ScheduledTask>
    decreases tasks.len(),
{
    if tasks.len() == 0 {
        Seq::empty()
    } else {
        let prev = tasks_without(tasks.drop_last(), id);
        if tasks.last().id != id { prev.push(tasks.last()) } else { prev }
    }
}

proof fn lemma_set_map_insert(o: StrMap<StrSet>, n: StrMap<StrSet>, k: Seq<char>, v: StrSet)
    requires
        n.map() == o.map().insert(k, v),
    ensures
        set_map(n) == set_map(o).insert(k, v.set()),
{
    assert(set_map(n) =~= set_map(o).insert(k, v.set()));
}

proof fn lemma_set_map_remove(o: StrMap<StrSet>, n: StrMap<StrSet>, k: Seq<char>)
    requires
        n.map() == o.map().remove(k),
    ensures
        set_map(n) == set_map(o).remove(k),
{
    assert(set_map(n) =~= set_map(o).remove(k));
}

/// The elements of `v` from position `n` on.
fn keep_from<T>(v: Vec<T>, n: usize) -> (r: Vec<T>)
    requires
        n <= v.len(),
    ensures
        r@ == v@.skip(n as int),
{
    let mut v = v;
    let mut rest = v.split_off(n);
    rest
}

} // verus!
