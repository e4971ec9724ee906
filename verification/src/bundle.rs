//! Export and import of the user's settings: the bundle that is written to
//! and read from a file, how it is taken from the model and how it is put
//! back.
use vstd::prelude::*;
use crate::store::{Model, sets_wf, set_map, macros_by_name, macros_named};
use crate::strmap::{StrMap, StrSet, pairs_map};
use crate::model::{RecordedMacro, ViewSnapshot, AlertRule};
use crate::text::views;

verus! {

broadcast use vstd::string::group_string_axioms;

/// The user's settings as written to an export file.
#[derive(Debug, Clone)]
pub struct ExportBundle {
    pub config: StrMap<String>,
    pub tags: StrMap<StrSet>,
    pub snippets: StrMap<String>,
    pub macros: Vec<RecordedMacro>,
    pub saved_views: Vec<(String, ViewSnapshot)>,
    pub pinned: Vec<String>,
    pub alert_rules: Vec<AlertRule>,
    pub notes: StrMap<String>,
    pub aliases: StrMap<String>,
    pub hotkeys: StrMap<String>,
    pub watched: Vec<String>,
    pub templates: StrMap<String>,
}

impl ExportBundle {
    /// No map of the bundle repeats a key.
    pub open spec fn wf(&self) -> bool {
        &&& self.config.wf()
        &&& sets_wf(self.tags)
        &&& self.snippets.wf()
        &&& self.notes.wf()
        &&& self.aliases.wf()
        &&& self.hotkeys.wf()
        &&& self.templates.wf()
    }
}

/// A saved view as plain values.
pub type SnapshotView = (Seq<char>, Option<Seq<char>>, Seq<char>, Seq<Seq<char>>, i64);

pub open spec fn snapshot_view(v: ViewSnapshot) -> SnapshotView {
    (v.tab@, match v.filter_query { Some(q) => Some(q@), None => None }, v.sort_mode@, views(v.selected_set@), v.created_at_ms)
}

/// The saved views of a name → view map, as plain values.
pub open spec fn snapshot_map(m: Map<Seq<char>, ViewSnapshot>) -> Map<Seq<char>, SnapshotView> {
    Map::new(|k: Seq<char>| m.dom().contains(k), |k: Seq<char>| snapshot_view(m[k]))
}

/// The settings that an export carries and an import puts back.
pub type UserData = (
    Map<Seq<char>, Seq<char>>,
    Map<Seq<char>, Set<Seq<char>>>,
    Map<Seq<char>, Seq<char>>,
    Map<Seq<char>, RecordedMacro>,
    Map<Seq<char>, SnapshotView>,
    Set<Seq<char>>,
    Seq<AlertRule>,
    Map<Seq<char>, Seq<char>>,
    Map<Seq<char>, Seq<char>>,
    Map<Seq<char>, Seq<char>>,
    Set<Seq<char>>,
);

/// Config, tags, snippets, macros, saved views, pins, alert rules, notes,
/// aliases, hotkeys and watches of a model.
pub open spec fn user_data(m: Model) -> UserData {
    (m.config.text_map(), set_map(m.tags), m.snippets.text_map(), m.macros.map(), snapshot_map(m.saved_views.map()),
        m.pinned.set(), m.alert_rules@, m.notes.text_map(), m.aliases.text_map(), m.hotkeys.text_map(), m.watched.set())
}

/// `b` holds the settings of `m`.
pub open spec fn exported(m: Model, b: ExportBundle) -> bool {
    &&& b.wf()
    &&& b.config.text_map() == m.config.text_map()
    &&& set_map(b.tags) == set_map(m.tags)
    &&& b.snippets.text_map() == m.snippets.text_map()
    &&& b.macros@ == m.macros.value_seq()
    &&& b.saved_views@.len() == m.saved_views.entries@.len()
    &&& forall|j: int| 0 <= j < b.saved_views@.len() ==> (#[trigger] b.saved_views@[j]).0@ == m.saved_views.key_seq()[j]
        && snapshot_view(b.saved_views@[j].1) == snapshot_view(m.saved_views.value_seq()[j])
    &&& views(b.pinned@) == m.pinned.item_seq()
    &&& b.alert_rules@ == m.alert_rules@
    &&& b.notes.text_map() == m.notes.text_map()
    &&& b.aliases.text_map() == m.aliases.text_map()
    &&& b.hotkeys.text_map() == m.hotkeys.text_map()
    &&& views(b.watched@) == m.watched.item_seq()
    &&& b.templates.text_map() == m.templates.text_map()
}

/// `after` is `before` with the settings of `b` put in place of its own
/// (templates stay), and its generation moved on by two.
pub open spec fn imported(before: Model, b: ExportBundle, after: Model) -> bool {
    &&& after.config == b.config
    &&& after.tags == b.tags
    &&& after.snippets == b.snippets
    &&& after.macros.map() == macros_by_name(b.macros@)
    &&& after.saved_views.map() == pairs_map(b.saved_views@)
    &&& after.pinned.set() == views(b.pinned@).to_set()
    &&& after.alert_rules@ == b.alert_rules@
    &&& after.notes == b.notes
    &&& after.aliases == b.aliases
    &&& after.hotkeys == b.hotkeys
    &&& after.watched.set() == views(b.watched@).to_set()
    &&& after.generation == before.generation + 2
    &&& after == (Model {
        config: after.config, tags: after.tags, snippets: after.snippets, macros: after.macros,
        saved_views: after.saved_views, pinned: after.pinned, alert_rules: after.alert_rules, notes: after.notes,
        aliases: after.aliases, hotkeys: after.hotkeys, watched: after.watched, generation: after.generation, ..before
    })
}

fn copy_text_map(m: &StrMap<String>) -> (r: StrMap<String>)
    ensures
        r.entries@ == m.entries@,
{
    let mut entries: Vec<(String, String)> = Vec::new();
    let mut i: usize = 0;
    while i < m.entries.len()
        invariant
            i <= m.entries@.len(),
            entries@ == m.entries@.take(i as int),
        decreases m.entries.len() - i,
    {
        let e = (m.entries[i].0.clone(), m.entries[i].1.clone());
        entries.push(e);
        assert(m.entries@.take(i + 1) =~= m.entries@.take(i as int).push(m.entries@[i as int]));
        i += 1;
    }
    assert(m.entries@.take(i as int) =~= m.entries@);
    StrMap { entries }
}

fn copy_set_map(m: &StrMap<StrSet>) -> (r: StrMap<StrSet>)
    ensures
        r.key_seq() == m.key_seq(),
        forall|i: int| 0 <= i < r.entries@.len() ==> (#[trigger] r.entries@[i]).1.item_seq() == m.entries@[i].1.item_seq(),
        r.entries@.len() == m.entries@.len(),
{
    let mut entries: Vec<(String, StrSet)> = Vec::new();
    let mut i: usize = 0;
    while i < m.entries.len()
        invariant
            i <= m.entries@.len(),
            entries@.len() == i,
            forall|j: int| 0 <= j < i ==> (#[trigger] entries@[j]).0 == m.entries@[j].0
                && entries@[j].1.item_seq() == m.entries@[j].1.item_seq(),
        decreases m.entries.len() - i,
    {
        let e = (m.entries[i].0.clone(), m.entries[i].1.copy());
        entries.push(e);
        i += 1;
    }
    let r = StrMap { entries };
    assert(r.key_seq() =~= m.key_seq());
    r
}

proof fn lemma_copied_set_map(r: StrMap<StrSet>, m: StrMap<StrSet>)
    requires
        sets_wf(m),
        r.key_seq() == m.key_seq(),
        r.entries@.len() == m.entries@.len(),
        forall|i: int| 0 <= i < r.entries@.len() ==> (#[trigger] r.entries@[i]).1.item_seq() == m.entries@[i].1.item_seq(),
    ensures
        sets_wf(r),
        set_map(r) == set_map(m),
{
    assert forall|i: int| 0 <= i < r.value_seq().len() implies (#[trigger] r.value_seq()[i]).wf() by {
        assert(m.value_seq()[i].wf());
        assert(r.value_seq()[i].item_seq() == m.value_seq()[i].item_seq());
    }
    assert forall|k: Seq<char>| #[trigger] set_map(r).dom().contains(k) implies set_map(r)[k] == set_map(m)[k] by {
        let i = r.pos(k);
        r.lemma_pos(i);
        m.lemma_pos(i);
        assert(r.key_seq()[i] == k);
    }
    assert(set_map(r) =~= set_map(m));
}

fn copy_macro(m: &RecordedMacro) -> (r: RecordedMacro)
    ensures
        r == *m,
{
    RecordedMacro { name: m.name.clone(), key_events_json: m.key_events_json.clone(), created_at_ms: m.created_at_ms }
}

pub(crate) fn copy_strings(v: &Vec<String>) -> (r: Vec<String>)
    ensures
        r@ == v@,
{
    let mut out: Vec<String> = Vec::new();
    let mut i: usize = 0;
    while i < v.len()
        invariant
            i <= v@.len(),
            out@ == v@.take(i as int),
        decreases v.len() - i,
    {
        out.push(v[i].clone());
        assert(v@.take(i + 1) =~= v@.take(i as int).push(v@[i as int]));
        i += 1;
    }
    assert(v@.take(i as int) =~= v@);
    out
}

fn copy_snapshot(v: &ViewSnapshot) -> (r: ViewSnapshot)
    ensures
        snapshot_view(r) == snapshot_view(*v),
{
    ViewSnapshot {
        tab: v.tab.clone(),
        filter_query: match &v.filter_query { Some(q) => Some(q.clone()), None => None },
        sort_mode: v.sort_mode.clone(),
        selected_set: copy_strings(&v.selected_set),
        created_at_ms: v.created_at_ms,
    }
}

fn copy_rule(r0: &AlertRule) -> (r: AlertRule)
    ensures
        r == *r0,
{
    AlertRule { id: r0.id, rule_type: r0.rule_type, value: r0.value.clone(), created_at_ms: r0.created_at_ms }
}

impl Model {
    /// The user's settings, for writing to an export file.
    pub fn export_bundle(&self) -> (b: ExportBundle)
        requires
            self.wf(),
        ensures
            exported(*self, b),
    {
        let config = copy_text_map(&self.config);
        let tags = copy_set_map(&self.tags);
        proof { lemma_copied_set_map(tags, self.tags); }
        let snippets = copy_text_map(&self.snippets);
        // macros, in the order of their names
        let mut macros: Vec<RecordedMacro> = Vec::new();
        let mut i: usize = 0;
        while i < self.macros.entries.len()
            invariant
                self.wf(),
                i <= self.macros.entries@.len(),
                macros@.len() == i,
                forall|j: int| 0 <= j < i ==> #[trigger] macros@[j] == self.macros.entries@[j].1,
            decreases self.macros.entries.len() - i,
        {
            macros.push(copy_macro(&self.macros.entries[i].1));
            i += 1;
        }
        assert(macros@ =~= self.macros.value_seq());
        let mut saved_views: Vec<(String, ViewSnapshot)> = Vec::new();
        let mut k: usize = 0;
        while k < self.saved_views.entries.len()
            invariant
                k <= self.saved_views.entries@.len(),
                saved_views@.len() == k,
                forall|j: int| 0 <= j < k ==> (#[trigger] saved_views@[j]).0@ == self.saved_views.entries@[j].0@
                    && snapshot_view(saved_views@[j].1) == snapshot_view(self.saved_views.entries@[j].1),
            decreases self.saved_views.entries.len() - k,
        {
            let e = (self.saved_views.entries[k].0.clone(), copy_snapshot(&self.saved_views.entries[k].1));
            saved_views.push(e);
            k += 1;
        }
        let pinned = copy_strings(&self.pinned.items);
        assert(views(pinned@) =~= self.pinned.item_seq());
        let mut alert_rules: Vec<AlertRule> = Vec::new();
        let mut r: usize = 0;
        while r < self.alert_rules.len()
            invariant
                r <= self.alert_rules@.len(),
                alert_rules@ == self.alert_rules@.take(r as int),
            decreases self.alert_rules.len() - r,
        {
            alert_rules.push(copy_rule(&self.alert_rules[r]));
            assert(self.alert_rules@.take(r + 1) =~= self.alert_rules@.take(r as int).push(self.alert_rules@[r as int]));
            r += 1;
        }
        assert(self.alert_rules@.take(r as int) =~= self.alert_rules@);
        let notes = copy_text_map(&self.notes);
        let aliases = copy_text_map(&self.aliases);
        let hotkeys = copy_text_map(&self.hotkeys);
        let watched = copy_strings(&self.watched.items);
        assert(views(watched@) =~= self.watched.item_seq());
        let templates = copy_text_map(&self.templates);
        let b = ExportBundle { config, tags, snippets, macros, saved_views, pinned, alert_rules, notes, aliases, hotkeys, watched, templates };
        assert(b.config.key_seq() =~= self.config.key_seq());
        assert(b.snippets.key_seq() =~= self.snippets.key_seq());
        assert(b.notes.key_seq() =~= self.notes.key_seq());
        assert(b.aliases.key_seq() =~= self.aliases.key_seq());
        assert(b.hotkeys.key_seq() =~= self.hotkeys.key_seq());
        assert(b.templates.key_seq() =~= self.templates.key_seq());
        assert(b.wf());
        assert(b.config.text_map() =~= self.config.text_map());
        assert(b.snippets.text_map() =~= self.snippets.text_map());
        assert(b.notes.text_map() =~= self.notes.text_map());
        assert(b.aliases.text_map() =~= self.aliases.text_map());
        assert(b.hotkeys.text_map() =~= self.hotkeys.text_map());
        assert(b.templates.text_map() =~= self.templates.text_map());
        b
    }
}

impl Model {
    /// Puts the settings of an imported bundle in place of the model's own
    /// (templates are left as they are).
    pub fn import_bundle(&mut self, b: ExportBundle)
        requires
            old(self).wf(),
            b.wf(),
            old(self).generation + 2 <= u64::MAX,
        ensures
            final(self).wf(),
            imported(*old(self), b, *final(self)),
    {
        let ghost bb = b;
        let ExportBundle { config, tags, snippets, macros, saved_views, pinned, alert_rules, notes, aliases, hotkeys, watched, templates: _ } = b;
        self.apply_config(config);
        self.apply_tags(tags);
        self.apply_snippets(snippets);
        self.apply_macros(macros);
        self.apply_saved_views(saved_views);
        self.apply_pinned(pinned);
        self.apply_alert_rules(alert_rules);
        self.apply_notes(notes);
        self.apply_aliases(aliases);
        self.apply_hotkeys(hotkeys);
        self.apply_watched(watched);
        self.generation = self.generation + 1;
        assert(views(bb.pinned@) =~= Seq::new(bb.pinned@.len(), |i: int| bb.pinned@[i]@));
        assert(views(bb.watched@) =~= Seq::new(bb.watched@.len(), |i: int| bb.watched@[i]@));
    }
}

proof fn lemma_macros_by_values(m: StrMap<RecordedMacro>, n: int)
    requires
        m.wf(),
        macros_named(m.map()),
        0 <= n <= m.entries@.len(),
    ensures
        macros_by_name(m.value_seq().take(n)) == m.map().restrict(m.key_seq().take(n).to_set()),
    decreases n,
{
    if n > 0 {
        lemma_macros_by_values(m, n - 1);
        assert(m.value_seq().take(n).drop_last() =~= m.value_seq().take(n - 1));
        let k = m.key_seq()[n - 1];
        m.lemma_pos(n - 1);
        assert(m.map()[k] == m.value_seq()[n - 1]);
        assert(m.map()[k].name@ == k);
        assert(m.key_seq().take(n) =~= m.key_seq().take(n - 1).push(k));
        m.key_seq().take(n - 1).lemma_push_to_set_commute(k);
        assert(macros_by_name(m.value_seq().take(n)) =~= m.map().restrict(m.key_seq().take(n).to_set()));
    } else {
        assert(m.key_seq().take(0).to_set() =~= Set::<Seq<char>>::empty());
        assert(macros_by_name(m.value_seq().take(0)) =~= m.map().restrict(m.key_seq().take(n).to_set()));
    }
}

proof fn lemma_pairs_by_entries(m: StrMap<ViewSnapshot>, pairs: Seq<(String, ViewSnapshot)>, n: int)
    requires
        m.wf(),
        pairs.len() == m.entries@.len(),
        forall|j: int| 0 <= j < pairs.len() ==> (#[trigger] pairs[j]).0@ == m.key_seq()[j]
            && snapshot_view(pairs[j].1) == snapshot_view(m.value_seq()[j]),
        0 <= n <= pairs.len(),
    ensures
        pairs_map(pairs.take(n)).dom() == m.key_seq().take(n).to_set(),
        forall|k: Seq<char>| #[trigger] pairs_map(pairs.take(n)).dom().contains(k)
            ==> snapshot_view(pairs_map(pairs.take(n))[k]) == snapshot_view(m.map()[k]),
    decreases n,
{
    if n > 0 {
        lemma_pairs_by_entries(m, pairs, n - 1);
        assert(pairs.take(n).drop_last() =~= pairs.take(n - 1));
        let k = m.key_seq()[n - 1];
        m.lemma_pos(n - 1);
        assert(m.key_seq().take(n) =~= m.key_seq().take(n - 1).push(k));
        m.key_seq().take(n - 1).lemma_push_to_set_commute(k);
        assert(pairs_map(pairs.take(n)).dom() =~= m.key_seq().take(n).to_set());
    } else {
        assert(m.key_seq().take(0).to_set() =~= Set::<Seq<char>>::empty());
        assert(pairs_map(pairs.take(0)).dom() =~= m.key_seq().take(0).to_set());
    }
}

proof fn lemma_item_set(s: StrSet, v: Seq<String>)
    requires
        views(v) == s.item_seq(),
    ensures
        views(v).to_set() == s.set(),
{
}

proof fn lemma_key_set<V>(m: StrMap<V>)
    ensures
        m.key_seq().to_set() == m.map().dom(),
{
    assert(m.key_seq().to_set() =~= m.map().dom());
}

/// Exporting the settings and importing the bundle again gives back the
/// same settings: configuration, tags, snippets, macros, saved views, pins,
/// alert rules, notes, aliases, hotkeys and watches.
pub proof fn law_export_import(m: Model, b: ExportBundle, before: Model, after: Model)
    requires
        m.wf(),
        exported(m, b),
        imported(before, b, after),
    ensures
        user_data(after) == user_data(m),
{
    // macros
    lemma_macros_by_values(m.macros, m.macros.entries@.len() as int);
    assert(m.macros.value_seq().take(m.macros.entries@.len() as int) =~= m.macros.value_seq());
    assert(m.macros.key_seq().take(m.macros.entries@.len() as int) =~= m.macros.key_seq());
    lemma_key_set(m.macros);
    assert(m.macros.map().restrict(m.macros.map().dom()) =~= m.macros.map());
    // saved views
    let n = b.saved_views@.len() as int;
    lemma_pairs_by_entries(m.saved_views, b.saved_views@, n);
    assert(b.saved_views@.take(n) =~= b.saved_views@);
    assert(m.saved_views.key_seq().take(n) =~= m.saved_views.key_seq());
    lemma_key_set(m.saved_views);
    assert(snapshot_map(after.saved_views.map()) =~= snapshot_map(m.saved_views.map()));
    // pins and watches
    lemma_item_set(m.pinned, b.pinned@);
    lemma_item_set(m.watched, b.watched@);
    assert(user_data(after).3 =~= user_data(m).3);
}

} // verus!
