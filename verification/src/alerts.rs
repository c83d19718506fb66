//! Alert evaluation: which rules a sample breaches, and which of those
//! breaches fire.
//!
//! A rule reads one kind of reading off the sample. A reading above the
//! rule's threshold is a breach; a breach fires at once unless its
//! (client, metric) pair is still cooling down. A rule's `duration_sec` is
//! carried along and plays no part in the decision.

use vstd::prelude::*;
use vstd::string::StringExecFns;
use crate::debounce::{suppressed, DebounceKey, DebounceStore};
use crate::models::{text_is, AlertRule, AlertRuleView, Metric};

verus! {

/// A fired alert, on its way to the notification dispatcher.
#[derive(Debug, Clone, PartialEq, Eq)]
pub struct AlertEvent {
    pub client_id: String,
    pub rule: AlertRule,
    pub observed_value: u64,
}

/// What an event says, with its strings as character sequences.
pub struct AlertEventView {
    pub client_id: Seq<char>,
    pub rule: AlertRuleView,
    pub observed_value: u64,
}

impl View for AlertEvent {
    type V = AlertEventView;

    open spec fn view(&self) -> AlertEventView {
        AlertEventView {
            client_id: self.client_id@,
            rule: self.rule@,
            observed_value: self.observed_value,
        }
    }
}

/// The views of `rules`, in order.
pub open spec fn rule_views(rules: Seq<AlertRule>) -> Seq<AlertRuleView> {
    Seq::new(rules.len(), |i: int| rules[i]@)
}

/// The views of `events`, in order.
pub open spec fn event_views(events: Seq<AlertEvent>) -> Seq<AlertEventView> {
    Seq::new(events.len(), |i: int| events[i]@)
}

/// The reading of `metric` that rules on `metric_type` look at, if the
/// sample has one. A name that is none of the known kinds reads nothing.
pub open spec fn reading_of(metric_type: Seq<char>, metric: Metric) -> Option<u64> {
    if metric_type == "cpu"@ {
        Some(metric.cpu_usage)
    } else if metric_type == "ram"@ {
        Some(metric.ram_usage)
    } else if metric_type == "disk"@ {
        Some(metric.disk_usage)
    } else if metric_type == "inode"@ {
        Some(metric.inode_usage)
    } else if metric_type == "gpu"@ {
        metric.gpu_usage
    } else {
        None
    }
}

/// Whether `rule` is meant for `client_id`: it names that client or none.
pub open spec fn applies_to(rule: AlertRuleView, client_id: Seq<char>) -> bool {
    match rule.client_id {
        Some(id) => id == client_id,
        None => true,
    }
}

/// The reading that breaches `rule` for `client_id`, if `metric` has one:
/// the rule applies, reads a value, and the value is above the threshold.
pub open spec fn breach_of(rule: AlertRuleView, client_id: Seq<char>, metric: Metric) -> Option<
    u64,
> {
    match reading_of(rule.metric_type, metric) {
        Some(value) => if applies_to(rule, client_id) && value > rule.threshold {
            Some(value)
        } else {
            None
        },
        None => None,
    }
}

/// The debounce state and the fired events, in the course of an evaluation.
pub struct Evaluation {
    pub fired: Map<DebounceKey, u64>,
    pub events: Seq<AlertEventView>,
}

/// The evaluation `before`, carried on by one more rule.
pub open spec fn evaluate_rule(
    before: Evaluation,
    window: u64,
    client_id: Seq<char>,
    rule: AlertRuleView,
    metric: Metric,
    now: u64,
) -> Evaluation {
    let key = (client_id, rule.metric_type);
    match breach_of(rule, client_id, metric) {
        Some(value) => if suppressed(before.fired, window, key, now) {
            before
        } else {
            Evaluation {
                fired: before.fired.insert(key, now),
                events: before.events.push(
                    AlertEventView { client_id, rule, observed_value: value },
                ),
            }
        },
        None => before,
    }
}

/// The outcome of holding `metric` against `rules`, one after the other,
/// starting from the debounce state `fired`.
pub open spec fn evaluate_rules(
    fired: Map<DebounceKey, u64>,
    window: u64,
    client_id: Seq<char>,
    rules: Seq<AlertRuleView>,
    metric: Metric,
    now: u64,
) -> Evaluation
    decreases rules.len(),
{
    if rules.len() == 0 {
        Evaluation { fired, events: Seq::empty() }
    } else {
        evaluate_rule(
            evaluate_rules(fired, window, client_id, rules.drop_last(), metric, now),
            window,
            client_id,
            rules.last(),
            metric,
            now,
        )
    }
}

/// Reads off `metric` what rules on `metric_type` look at.
pub fn metric_value(metric_type: &String, metric: &Metric) -> (value: Option<u64>)
    ensures
        value == reading_of(metric_type@, *metric),
{
    if text_is(metric_type, "cpu") {
        Some(metric.cpu_usage)
    } else if text_is(metric_type, "ram") {
        Some(metric.ram_usage)
    } else if text_is(metric_type, "disk") {
        Some(metric.disk_usage)
    } else if text_is(metric_type, "inode") {
        Some(metric.inode_usage)
    } else if text_is(metric_type, "gpu") {
        metric.gpu_usage
    } else {
        None
    }
}

/// Whether `rule` is meant for the client `client_id`.
pub fn rule_applies(rule: &AlertRule, client_id: &String) -> (applies: bool)
    ensures
        applies == applies_to(rule@, client_id@),
{
    match &rule.client_id {
        Some(id) => *id == *client_id,
        None => true,
    }
}

/// Holds `metric`, reported by `client_id` at `now`, against `rules` in
/// their order. Every breach that is not held back arms its pair in `store`
/// and yields one event; everything else leaves no trace.
pub fn check_alerts(
    store: &mut DebounceStore,
    client_id: &str,
    rules: &Vec<AlertRule>,
    metric: &Metric,
    now: u64,
) -> (events: Vec<AlertEvent>)
    requires
        old(store).wf(),
    ensures
        final(store).wf(),
        final(store).spec_window() == old(store).spec_window(),
        final(store)@ == evaluate_rules(
            old(store)@,
            old(store).spec_window(),
            client_id@,
            rule_views(rules@),
            *metric,
            now,
        ).fired,
        event_views(events@) == evaluate_rules(
            old(store)@,
            old(store).spec_window(),
            client_id@,
            rule_views(rules@),
            *metric,
            now,
        ).events,
{
    let client = String::from_str(client_id);
    let mut events: Vec<AlertEvent> = Vec::new();
    let ghost views = rule_views(rules@);
    let ghost window = store.spec_window();
    let mut i: usize = 0;
    proof {
        assert(views.take(0) =~= Seq::<AlertRuleView>::empty());
        assert(event_views(events@) =~= Seq::<AlertEventView>::empty());
    }
    while i < rules.len()
        invariant
            i <= rules@.len(),
            store.wf(),
            store.spec_window() == window,
            window == old(store).spec_window(),
            views == rule_views(rules@),
            client@ == client_id@,
            store@ == evaluate_rules(
                old(store)@,
                window,
                client_id@,
                views.take(i as int),
                *metric,
                now,
            ).fired,
            event_views(events@) == evaluate_rules(
                old(store)@,
                window,
                client_id@,
                views.take(i as int),
                *metric,
                now,
            ).events,
        decreases rules@.len() - i,
    {
        let rule = &rules[i];
        let ghost seen = events@;
        proof {
            assert(views.take(i + 1).drop_last() =~= views.take(i as int));
            assert(views.take(i + 1).last() == rule@);
        }
        if rule_applies(rule, &client) {
            match metric_value(&rule.metric_type, metric) {
                Some(value) => {
                    if value > rule.threshold {
                        let fire = store.check_and_arm(client_id, rule.metric_type.as_str(), now);
                        if fire {
                            events.push(
                                AlertEvent {
                                    client_id: client.clone(),
                                    rule: rule.clone(),
                                    observed_value: value,
                                },
                            );
                            proof {
                                assert(event_views(events@) =~= event_views(seen).push(
                                    AlertEventView {
                                        client_id: client_id@,
                                        rule: rule@,
                                        observed_value: value,
                                    },
                                ));
                            }
                        }
                    }
                },
                None => {},
            }
        }
        i += 1;
    }
    proof {
        assert(views.take(rules@.len() as int) =~= views);
    }
    events
}

/// Two evaluations of one breached rule, less than a window apart, fire
/// exactly one event between them when the pair had not fired before: the
/// first evaluation fires, the second is held back. The two samples may
/// differ, as long as both breach the rule.
pub proof fn lemma_repeated_breach_fires_once(
    fired: Map<DebounceKey, u64>,
    window: u64,
    client_id: Seq<char>,
    rule: AlertRuleView,
    first_metric: Metric,
    second_metric: Metric,
    first: u64,
    second: u64,
)
    requires
        breach_of(rule, client_id, first_metric) is Some,
        breach_of(rule, client_id, second_metric) is Some,
        !fired.contains_key((client_id, rule.metric_type)),
        crate::debounce::elapsed(second, first) < window,
    ensures
        ({
            let one = evaluate_rules(fired, window, client_id, seq![rule], first_metric, first);
            let two = evaluate_rules(
                one.fired,
                window,
                client_id,
                seq![rule],
                second_metric,
                second,
            );
            &&& one.events == seq![
                AlertEventView {
                    client_id,
                    rule,
                    observed_value: breach_of(rule, client_id, first_metric)->Some_0,
                },
            ]
            &&& two.events == Seq::<AlertEventView>::empty()
            &&& two.fired == one.fired
            &&& one.fired == fired.insert((client_id, rule.metric_type), first)
        }),
{
    let rules = seq![rule];
    assert(rules.drop_last() =~= Seq::<AlertRuleView>::empty());
    assert(rules.last() == rule);
    let start = evaluate_rules(fired, window, client_id, rules.drop_last(), first_metric, first);
    assert(start.events =~= Seq::<AlertEventView>::empty());
    let one = evaluate_rules(fired, window, client_id, rules, first_metric, first);
    assert(one.events =~= seq![
        AlertEventView {
            client_id,
            rule,
            observed_value: breach_of(rule, client_id, first_metric)->Some_0,
        },
    ]);
    let again = evaluate_rules(
        one.fired,
        window,
        client_id,
        rules.drop_last(),
        second_metric,
        second,
    );
    assert(again.events =~= Seq::<AlertEventView>::empty());
}

/// A sample that breaches none of the rules fires nothing and leaves the
/// debounce state as it was.
pub proof fn lemma_no_breach_no_trace(
    fired: Map<DebounceKey, u64>,
    window: u64,
    client_id: Seq<char>,
    rules: Seq<AlertRuleView>,
    metric: Metric,
    now: u64,
)
    requires
        forall|i: int| 0 <= i < rules.len() ==> breach_of(#[trigger] rules[i], client_id, metric) is None,
    ensures
        evaluate_rules(fired, window, client_id, rules, metric, now).fired == fired,
        evaluate_rules(fired, window, client_id, rules, metric, now).events == Seq::<
            AlertEventView,
        >::empty(),
    decreases rules.len(),
{
    if rules.len() > 0 {
        let front = rules.drop_last();
        assert forall|i: int| 0 <= i < front.len() implies breach_of(
            #[trigger] front[i],
            client_id,
            metric,
        ) is None by {
            assert(front[i] == rules[i]);
        }
        lemma_no_breach_no_trace(fired, window, client_id, front, metric, now);
        assert(breach_of(rules[rules.len() - 1], client_id, metric) is None);
    }
}

/// An evaluation fires at most one event for each rule it is given.
pub proof fn lemma_events_bounded_by_rules(
    fired: Map<DebounceKey, u64>,
    window: u64,
    client_id: Seq<char>,
    rules: Seq<AlertRuleView>,
    metric: Metric,
    now: u64,
)
    ensures
        evaluate_rules(fired, window, client_id, rules, metric, now).events.len() <= rules.len(),
    decreases rules.len(),
{
    if rules.len() > 0 {
        lemma_events_bounded_by_rules(fired, window, client_id, rules.drop_last(), metric, now);
    }
}

} // verus!
