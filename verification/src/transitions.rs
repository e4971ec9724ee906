//! Status changes after a refresh of the hook statuses: which agents moved
//! to another status category, how each change is logged, and what is
//! shown to the user about it.
use vstd::prelude::*;
use crate::model::{Agent, StatusCategory, EventSeverity, AlertRule, AlertRuleType, category_of, category_state_at,
    effective_state_at_spec, category_label, severity_name};
use crate::alerts::{CheckContext, check_alert_rules, alerts_for, rule_fires, alert_text, opt_text};
use crate::strmap::StrMap;
use crate::store::Model;
use crate::text::{concat, views, eq_ci};
use crate::model::{EventCategory, EVENTS_CAP};
use crate::update::{Cmd, noted, note_event_at};

verus! {

broadcast use vstd::string::group_string_axioms;

/// One agent's change of status category.
#[derive(Debug, Clone)]
pub struct Transition {
    pub handle: String,
    pub old: StatusCategory,
    pub new: StatusCategory,
}

/// A transition as plain values: handle, old and new category.
pub type TransitionView = (Seq<char>, StatusCategory, StatusCategory);

pub open spec fn transition_view(t: Transition) -> TransitionView {
    (t.handle@, t.old, t.new)
}

pub open spec fn transitions_view(v: Seq<Transition>) -> Seq<TransitionView> {
    Seq::new(v.len(), |i: int| transition_view(v[i]))
}

/// An agent's status category at time `now`.
pub open spec fn agent_category(a: Agent, now: int) -> StatusCategory {
    category_of(category_state_at(a, now))
}

/// The changes of category, in the order of `keys`: each agent that is in
/// both maps and whose category at `now` differs between them.
pub open spec fn transitions_spec(keys: Seq<Seq<char>>, before: Map<Seq<char>, Agent>, after: Map<Seq<char>, Agent>,
    now: int) -> Seq<TransitionView>
    decreases keys.len(),
{
    if keys.len() == 0 {
        Seq::empty()
    } else {
        let prev = transitions_spec(keys.drop_last(), before, after, now);
        let h = keys.last();
        if before.dom().contains(h) && after.dom().contains(h)
            && agent_category(before[h], now) != agent_category(after[h], now) {
            prev.push((h, agent_category(before[h], now), agent_category(after[h], now)))
        } else {
            prev
        }
    }
}

/// The agents of `after` whose status category at time `now` differs from
/// the one they had in `before`, in the order of `after`.
pub fn status_transitions_at(before: &StrMap<Agent>, after: &StrMap<Agent>, now: i64) -> (r: Vec<Transition>)
    requires
        before.wf(),
        after.wf(),
    ensures
        transitions_view(r@) == transitions_spec(after.key_seq(), before.map(), after.map(), now as int),
{
    let mut r: Vec<Transition> = Vec::new();
    let mut i: usize = 0;
    while i < after.entries.len()
        invariant
            i <= after.entries.len(),
            after.wf(),
            before.wf(),
            transitions_view(r@) == transitions_spec(after.key_seq().take(i as int), before.map(), after.map(), now as int),
        decreases after.entries.len() - i,
    {
        let ghost keys = after.key_seq().take(i as int + 1);
        assert(keys.drop_last() =~= after.key_seq().take(i as int));
        proof { after.lemma_pos(i as int); }
        let handle = &after.entries[i].0;
        let agent = &after.entries[i].1;
        assert(keys.last() == handle@);
        if let Some(prev_agent) = before.get(handle.as_str()) {
            let old = StatusCategory::from_agent_at(prev_agent, now);
            let new = StatusCategory::from_agent_at(agent, now);
            if old != new {
                let ghost prev = r@;
                r.push(Transition { handle: handle.clone(), old, new });
                assert(transitions_view(r@) =~= transitions_view(prev).push((handle@, old, new)));
            }
        }
        i += 1;
    }
    assert(after.key_seq().take(i as int) =~= after.key_seq());
    r
}

/// Severity with which a change to `c` is logged: a warning for Error and
/// Blocked, else information.
pub open spec fn transition_severity_spec(c: StatusCategory) -> EventSeverity {
    if c == StatusCategory::Error || c == StatusCategory::Blocked { EventSeverity::Warn } else { EventSeverity::Info }
}

pub fn transition_severity(c: StatusCategory) -> (r: EventSeverity)
    ensures
        r == transition_severity_spec(c),
{
    match c {
        StatusCategory::Error | StatusCategory::Blocked => EventSeverity::Warn,
        _ => EventSeverity::Info,
    }
}

/// "<handle>: <old label> → <new label>".
pub open spec fn transition_text_spec(t: TransitionView) -> Seq<char> {
    t.0 + ": "@ + category_label(t.1) + " → "@ + category_label(t.2)
}

/// The log line of a transition.
pub fn transition_text(t: &Transition) -> (r: String)
    ensures
        r@ == transition_text_spec(transition_view(*t)),
{
    let a = concat(t.handle.as_str(), ": ");
    let b = concat(a.as_str(), t.old.label());
    let c = concat(b.as_str(), " → ");
    concat(c.as_str(), t.new.label())
}

/// Whether `rule` fires on a change of `handle` to `new`, logged with `sev`.
pub open spec fn fires_on_transition(rule: AlertRule, handle: Seq<char>, sev: EventSeverity, new: StatusCategory) -> bool {
    match rule.rule_type {
        AlertRuleType::State => eq_ci(category_label(new), rule.value@),
        AlertRuleType::Source => eq_ci(handle, rule.value@),
        AlertRuleType::Severity => eq_ci(severity_name(sev), rule.value@),
        AlertRuleType::Message => false,
    }
}

/// Notices of the rules of `rules` that fire on the change, in order.
pub open spec fn transition_alerts(rules: Seq<AlertRule>, handle: Seq<char>, sev: EventSeverity, new: StatusCategory)
    -> Seq<Seq<char>>
    decreases rules.len(),
{
    if rules.len() == 0 {
        Seq::empty()
    } else {
        let prev = transition_alerts(rules.drop_last(), handle, sev, new);
        if fires_on_transition(rules.last(), handle, sev, new) { prev.push(alert_text(rules.last())) } else { prev }
    }
}

proof fn lemma_transition_alerts(rules: Seq<AlertRule>, ctx: CheckContext, handle: Seq<char>, sev: EventSeverity,
    new: StatusCategory)
    requires
        ctx.handle is Some && ctx.handle->0@ == handle,
        ctx.event_source is Some && ctx.event_source->0@ == handle,
        ctx.new_state is Some && ctx.new_state->0@ == category_label(new),
        ctx.event_severity is Some && ctx.event_severity->0@ == severity_name(sev),
        !ctx.is_new_message,
    ensures
        alerts_for(rules, ctx) == transition_alerts(rules, handle, sev, new),
    decreases rules.len(),
{
    if rules.len() > 0 {
        lemma_transition_alerts(rules.drop_last(), ctx, handle, sev, new);
        assert(opt_text(ctx.handle) == handle);
        assert(rule_fires(rules.last(), ctx) == fires_on_transition(rules.last(), handle, sev, new));
    }
}

/// What the user is shown about a transition: a pin notice when the agent
/// is pinned, a watch notice when it is watched, then the notice of each
/// alert rule that fires.
pub open spec fn notices_spec(m: Model, t: TransitionView) -> Seq<Seq<char>> {
    let tail = t.0 + " → "@ + category_label(t.2);
    let pin: Seq<Seq<char>> = if m.pinned.set().contains(t.0) { seq!["📌 "@ + tail] } else { Seq::empty() };
    let watch: Seq<Seq<char>> = if m.watched.set().contains(t.0) { seq!["👁 "@ + tail] } else { Seq::empty() };
    pin + watch + transition_alerts(m.alert_rules@, t.0, transition_severity_spec(t.2), t.2)
}

/// The notices shown for a transition.
pub fn transition_notices(model: &Model, t: &Transition) -> (r: Vec<String>)
    ensures
        views(r@) == notices_spec(*model, transition_view(*t)),
{
    let label = t.new.label();
    let tail0 = concat(t.handle.as_str(), " → ");
    let tail = concat(tail0.as_str(), label);
    let mut r: Vec<String> = Vec::new();
    if model.pinned.contains(t.handle.as_str()) {
        r.push(concat("📌 ", tail.as_str()));
    }
    if model.watched.contains(t.handle.as_str()) {
        r.push(concat("👁 ", tail.as_str()));
    }
    let sev = transition_severity(t.new);
    let ctx = CheckContext {
        handle: Some(t.handle.as_str()),
        new_state: Some(label),
        event_severity: Some(sev.as_str()),
        event_source: Some(t.handle.as_str()),
        is_new_message: false,
    };
    let alerts = check_alert_rules(model.alert_rules.as_slice(), &ctx);
    proof { lemma_transition_alerts(model.alert_rules@, ctx, t.handle@, sev, t.new); }
    let ghost head = views(r@);
    let mut j: usize = 0;
    while j < alerts.len()
        invariant
            j <= alerts.len(),
            views(r@) == head + views(alerts@).take(j as int),
        decreases alerts.len() - j,
    {
        let ghost prev = r@;
        let a = alerts[j].clone();
        assert(a@ == alerts@[j as int]@);
        r.push(a);
        assert(views(r@) =~= views(prev).push(alerts@[j as int]@));
        assert(views(alerts@).take(j as int + 1) =~= views(alerts@).take(j as int).push(alerts@[j as int]@));
        assert(views(r@) =~= head + views(alerts@).take(j as int + 1));
        j += 1;
    }
    assert(views(alerts@).take(j as int) =~= views(alerts@));
    assert(views(r@) =~= notices_spec(*model, transition_view(*t)));
    r
}

/// The log entry of transition `t` at time `now`.
pub open spec fn logs_transition(t: TransitionView, now: i64, e: crate::model::Event) -> bool {
    noted(transition_severity_spec(t.2), EventCategory::State, t.0, transition_text_spec(t), now, e)
}

pub open spec fn min_int(a: int, b: int) -> int {
    if a < b { a } else { b }
}

/// Logs each transition in turn as a state event at time `now`: the
/// activity log gains one entry per transition, in order, the oldest
/// entries leaving once it is full, and a command to persist each entry is
/// returned.
pub fn record_transitions_at(model: &mut Model, ts: &Vec<Transition>, now: i64) -> (cs: Vec<Cmd>)
    requires
        old(model).wf(),
        old(model).generation + ts@.len() <= u64::MAX,
    ensures
        final(model).wf(),
        *final(model) == (Model { events: final(model).events, generation: (old(model).generation + ts@.len()) as u64,
            ..*old(model) }),
        final(model).events@.len() == min_int((old(model).events@.len() + ts@.len()) as int, EVENTS_CAP as int),
        cs@.len() == ts@.len(),
        forall|i: int| 0 <= i < ts@.len() ==>
            ((#[trigger] cs@[i]) matches Cmd::PersistActivityEvent(e) && logs_transition(transition_view(ts@[i]), now, e)),
        forall|i: int| 0 <= i < ts@.len() && final(model).events@.len() - ts@.len() + i >= 0 ==>
            logs_transition(transition_view(ts@[i]), now, #[trigger] final(model).events@[final(model).events@.len() - ts@.len() + i]),
        forall|j: int| 0 <= j < final(model).events@.len() - ts@.len() ==>
            #[trigger] final(model).events@[j] == old(model).events@[old(model).events@.len() + ts@.len() - final(model).events@.len() + j],
{
    let ghost m0 = *model;
    let ghost l0 = m0.events@.len() as int;
    let ghost n = ts@.len() as int;
    let mut cs: Vec<Cmd> = Vec::new();
    let mut k: usize = 0;
    while k < ts.len()
        invariant
            k <= ts@.len(),
            n == ts@.len(),
            l0 == m0.events@.len(),
            l0 <= EVENTS_CAP,
            model.wf(),
            m0.generation + n <= u64::MAX,
            *model == (Model { events: model.events, generation: (m0.generation + k) as u64, ..m0 }),
            model.events@.len() == min_int(l0 + k, EVENTS_CAP as int),
            cs@.len() == k,
            forall|i: int| 0 <= i < k ==>
                ((#[trigger] cs@[i]) matches Cmd::PersistActivityEvent(e) && logs_transition(transition_view(ts@[i]), now, e)),
            forall|i: int| 0 <= i < k && model.events@.len() - k + i >= 0 ==>
                logs_transition(transition_view(ts@[i]), now, #[trigger] model.events@[model.events@.len() - k + i]),
            forall|j: int| 0 <= j < model.events@.len() - k ==>
                #[trigger] model.events@[j] == m0.events@[l0 + k - model.events@.len() + j],
        decreases ts@.len() - k,
    {
        let ghost before = model.events@;
        let t = &ts[k];
        let c = note_event_at(model, transition_severity(t.new), EventCategory::State, t.handle.as_str(), transition_text(t), now);
        let ghost after = model.events@;
        proof {
            let len_b = before.len() as int;
            let len_a = after.len() as int;
            assert(after.drop_last().len() == len_a - 1);
            if len_b >= EVENTS_CAP {
                assert(after.drop_last() == before.drop_first());
                assert(len_a == len_b);
                assert forall|j: int| 0 <= j < len_a - 1 implies #[trigger] after[j] == before[j + 1] by {
                    assert(after.drop_last()[j] == before.drop_first()[j]);
                }
            } else {
                assert(after.drop_last() == before);
                assert(len_a == len_b + 1);
                assert forall|j: int| 0 <= j < len_a - 1 implies #[trigger] after[j] == before[j] by {
                    assert(after.drop_last()[j] == before[j]);
                }
            }
            assert forall|i: int| 0 <= i < k + 1 && len_a - (k + 1) + i >= 0 implies
                logs_transition(transition_view(ts@[i]), now, #[trigger] after[len_a - (k + 1) + i]) by {
                if i < k {
                    if len_b >= EVENTS_CAP {
                        assert(after[len_a - (k + 1) + i] == before[len_b - k + i]);
                    } else {
                        assert(after[len_a - (k + 1) + i] == before[len_b - k + i]);
                    }
                }
            }
            assert forall|j: int| 0 <= j < len_a - (k + 1) implies
                #[trigger] after[j] == m0.events@[l0 + (k + 1) - len_a + j] by {
                if len_b >= EVENTS_CAP {
                    assert(after[j] == before[j + 1]);
                } else {
                    assert(after[j] == before[j]);
                }
            }
        }
        cs.push(c);
        k += 1;
    }
    cs
}

} // verus!
