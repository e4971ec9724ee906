//! Alert rule evaluation.
use vstd::prelude::*;
use crate::model::{AlertRule, AlertRuleType, rule_type_name};
use crate::text::{eq_ci, eq_ignore_ascii_case, concat, lower_seq};

verus! {

broadcast use vstd::string::group_string_axioms;

/// What happened, as seen by the alert rules.
#[derive(Debug)]
pub struct CheckContext<'a> {
    pub handle: Option<&'a str>,
    pub new_state: Option<&'a str>,
    pub event_severity: Option<&'a str>,
    pub event_source: Option<&'a str>,
    pub is_new_message: bool,
}

impl<'a> Default for CheckContext<'a> {
    fn default() -> (r: Self)
        ensures
            r.handle is None,
            r.new_state is None,
            r.event_severity is None,
            r.event_source is None,
            !r.is_new_message,
    {
        CheckContext { handle: None, new_state: None, event_severity: None, event_source: None, is_new_message: false }
    }
}

/// The text of an optional borrowed string, or "" when absent.
pub open spec fn opt_text(o: Option<&str>) -> Seq<char> {
    match o {
        Some(s) => s@,
        None => ""@,
    }
}

/// Whether `rule` fires in `ctx`: a state rule on a new state equal to its
/// value, a source rule on a handle or event source equal to its value, a
/// severity rule on an event severity equal to its value (all ignoring ASCII
/// case), a message rule on any new message.
pub open spec fn rule_fires(rule: AlertRule, ctx: CheckContext) -> bool {
    match rule.rule_type {
        AlertRuleType::State => ctx.new_state is Some && eq_ci(ctx.new_state->0@, rule.value@),
        AlertRuleType::Source => eq_ci(opt_text(ctx.handle), rule.value@) || eq_ci(opt_text(ctx.event_source), rule.value@),
        AlertRuleType::Severity => ctx.event_severity is Some && eq_ci(ctx.event_severity->0@, rule.value@),
        AlertRuleType::Message => ctx.is_new_message,
    }
}

/// The notice of a fired rule: "🔔 alert: <type>:<value>".
pub open spec fn alert_text(rule: AlertRule) -> Seq<char> {
    "🔔 alert: "@ + rule_type_name(rule.rule_type) + ":"@ + rule.value@
}

/// Notices of the rules of `rules` that fire in `ctx`, in order.
pub open spec fn alerts_for(rules: Seq<AlertRule>, ctx: CheckContext) -> Seq<Seq<char>>
    decreases rules.len(),
{
    if rules.len() == 0 {
        Seq::empty()
    } else {
        let prev = alerts_for(rules.drop_last(), ctx);
        if rule_fires(rules.last(), ctx) { prev.push(alert_text(rules.last())) } else { prev }
    }
}

/// The notices of a list of rules are those of its first part followed by
/// those of its second part: each rule is checked on its own, in order.
pub proof fn law_alerts_concat(a: Seq<AlertRule>, b: Seq<AlertRule>, ctx: CheckContext)
    ensures
        alerts_for(a + b, ctx) == alerts_for(a, ctx) + alerts_for(b, ctx),
    decreases b.len(),
{
    if b.len() == 0 {
        assert(a + b =~= a);
        assert(alerts_for(a, ctx) + alerts_for(b, ctx) =~= alerts_for(a, ctx));
    } else {
        law_alerts_concat(a, b.drop_last(), ctx);
        assert((a + b).drop_last() =~= a + b.drop_last());
        assert((a + b).last() == b.last());
        assert(alerts_for(a, ctx) + alerts_for(b, ctx) =~= (alerts_for(a, ctx) + alerts_for(b.drop_last(), ctx))
            + (if rule_fires(b.last(), ctx) { seq![alert_text(b.last())] } else { Seq::empty() }));
    }
}

proof fn lemma_one_rule(r: AlertRule, ctx: CheckContext)
    ensures
        alerts_for(seq![r], ctx) == (if rule_fires(r, ctx) { seq![alert_text(r)] } else { Seq::<Seq<char>>::empty() }),
{
    reveal_with_fuel(alerts_for, 2);
    assert(seq![r].drop_last() =~= Seq::<AlertRule>::empty());
    assert(seq![r].last() == r);
    assert(alerts_for(Seq::<AlertRule>::empty(), ctx) =~= Seq::<Seq<char>>::empty());
    assert(Seq::<Seq<char>>::empty().push(alert_text(r)) =~= seq![alert_text(r)]);
}

/// A message rule fires on every new message and on nothing else: alone,
/// it gives the notice "🔔 alert: message:<value>" exactly when a new
/// message arrived.
pub proof fn law_message_rule(r: AlertRule, ctx: CheckContext)
    requires
        r.rule_type == AlertRuleType::Message,
    ensures
        alerts_for(seq![r], ctx) == (if ctx.is_new_message { seq!["🔔 alert: "@ + "message"@ + ":"@ + r.value@] } else { Seq::empty() }),
{
    lemma_one_rule(r, ctx);
}

/// On a new message, every message rule among `rules` gives its notice.
pub proof fn law_message_rule_fires(rules: Seq<AlertRule>, i: int, ctx: CheckContext)
    requires
        0 <= i < rules.len(),
        rules[i].rule_type == AlertRuleType::Message,
        ctx.is_new_message,
    ensures
        alerts_for(rules, ctx).contains("🔔 alert: "@ + "message"@ + ":"@ + rules[i].value@),
{
    let n = "🔔 alert: "@ + "message"@ + ":"@ + rules[i].value@;
    assert(rules =~= rules.take(i) + (seq![rules[i]] + rules.skip(i + 1)));
    law_alerts_concat(rules.take(i), seq![rules[i]] + rules.skip(i + 1), ctx);
    law_alerts_concat(seq![rules[i]], rules.skip(i + 1), ctx);
    law_message_rule(rules[i], ctx);
    let x = alerts_for(rules.take(i), ctx);
    let whole = x + (seq![n] + alerts_for(rules.skip(i + 1), ctx));
    assert(whole[x.len() as int] == n);
}

/// A state rule fires when the new state equals its value, ignoring ASCII
/// case; its notice is "🔔 alert: state:<value>".
pub proof fn law_state_rule(r: AlertRule, ctx: CheckContext)
    requires
        r.rule_type == AlertRuleType::State,
    ensures
        alerts_for(seq![r], ctx) == (if (match ctx.new_state { Some(s) => lower_seq(s@) == lower_seq(r.value@), None => false }) {
            seq!["🔔 alert: "@ + "state"@ + ":"@ + r.value@]
        } else {
            Seq::empty()
        }),
{
    lemma_one_rule(r, ctx);
}

/// A source rule fires when the handle, or the event's source, equals its
/// value ignoring ASCII case (a missing one counts as ""); its notice is
/// "🔔 alert: source:<value>".
pub proof fn law_source_rule(r: AlertRule, ctx: CheckContext)
    requires
        r.rule_type == AlertRuleType::Source,
    ensures
        alerts_for(seq![r], ctx) == (if lower_seq(match ctx.handle { Some(h) => h@, None => ""@ }) == lower_seq(r.value@)
            || lower_seq(match ctx.event_source { Some(h) => h@, None => ""@ }) == lower_seq(r.value@) {
            seq!["🔔 alert: "@ + "source"@ + ":"@ + r.value@]
        } else {
            Seq::empty()
        }),
{
    lemma_one_rule(r, ctx);
}

/// A severity rule fires when the event's severity equals its value,
/// ignoring ASCII case; its notice is "🔔 alert: severity:<value>".
pub proof fn law_severity_rule(r: AlertRule, ctx: CheckContext)
    requires
        r.rule_type == AlertRuleType::Severity,
    ensures
        alerts_for(seq![r], ctx) == (if (match ctx.event_severity { Some(s) => lower_seq(s@) == lower_seq(r.value@), None => false }) {
            seq!["🔔 alert: "@ + "severity"@ + ":"@ + r.value@]
        } else {
            Seq::empty()
        }),
{
    lemma_one_rule(r, ctx);
}

fn fires(rule: &AlertRule, ctx: &CheckContext) -> (r: bool)
    ensures
        r == rule_fires(*rule, *ctx),
{
    match rule.rule_type {
        AlertRuleType::State => match ctx.new_state {
            Some(s) => eq_ignore_ascii_case(s, rule.value.as_str()),
            None => false,
        },
        AlertRuleType::Source => {
            let h = match ctx.handle { Some(h) => h, None => "" };
            let s = match ctx.event_source { Some(s) => s, None => "" };
            eq_ignore_ascii_case(h, rule.value.as_str()) || eq_ignore_ascii_case(s, rule.value.as_str())
        },
        AlertRuleType::Severity => match ctx.event_severity {
            Some(s) => eq_ignore_ascii_case(s, rule.value.as_str()),
            None => false,
        },
        AlertRuleType::Message => ctx.is_new_message,
    }
}

/// The notices of the rules that fire in `ctx`, in rule order.
pub fn check_alert_rules(rules: &[AlertRule], ctx: &CheckContext) -> (r: Vec<String>)
    ensures
        crate::text::views(r@) == alerts_for(rules@, *ctx),
{
    let mut out: Vec<String> = Vec::new();
    let mut i: usize = 0;
    while i < rules.len()
        invariant
            i <= rules.len(),
            crate::text::views(out@) == alerts_for(rules@.take(i as int), *ctx),
        decreases rules.len() - i,
    {
        let rule = &rules[i];
        assert(rules@.take(i + 1).drop_last() =~= rules@.take(i as int));
        if fires(rule, ctx) {
            let mut t = concat("🔔 alert: ", rule.rule_type.as_str());
            t.append(":");
            t.append(rule.value.as_str());
            out.push(t);
            assert(crate::text::views(out@) =~= alerts_for(rules@.take(i as int), *ctx).push(alert_text(*rule)));
        }
        i += 1;
    }
    assert(rules@.take(rules.len() as int) =~= rules@);
    out
}

} // verus!
