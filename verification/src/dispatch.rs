//! The notification dispatcher: a bounded queue of fired alerts and the
//! plan for telling the outside world about each.
//!
//! Ingestion offers events and never waits: an event that finds the queue
//! full is dropped. One worker takes the events in the order they arrived
//! and sends one message each; a message that cannot be sent is given up.

use std::collections::VecDeque;
use vstd::prelude::*;
use vstd::string::StringExecFns;
use crate::alerts::AlertEvent;
use crate::delivery::{is_success, status_is_success, TransportResult};
use crate::text::{one_decimal, one_decimal_text};

verus! {

/// Number of events that may wait for the dispatcher.
pub const ALERT_QUEUE_CAPACITY: usize = 100;

/// The key of the setting that holds the webhook to notify.
pub open spec fn webhook_setting() -> Seq<char> {
    "slack_webhook_url"@
}

/// The queue after `item` is offered to it under `capacity`.
pub open spec fn offered<T>(waiting: Seq<T>, capacity: nat, item: T) -> Seq<T> {
    if waiting.len() < capacity {
        waiting.push(item)
    } else {
        waiting
    }
}

/// The queue after every item of `items` is offered, in order.
pub open spec fn offered_all<T>(waiting: Seq<T>, capacity: nat, items: Seq<T>) -> Seq<T>
    decreases items.len(),
{
    if items.len() == 0 {
        waiting
    } else {
        offered(offered_all(waiting, capacity, items.drop_last()), capacity, items.last())
    }
}

/// A bounded first-in, first-out queue that refuses rather than waits.
pub struct AlertQueue<T> {
    waiting: VecDeque<T>,
    capacity: usize,
}

impl<T> View for AlertQueue<T> {
    type V = Seq<T>;

    closed spec fn view(&self) -> Seq<T> {
        self.waiting@
    }
}

impl<T> AlertQueue<T> {
    /// The most items that ever wait.
    pub closed spec fn spec_capacity(&self) -> nat {
        self.capacity as nat
    }

    /// The queue's invariant: it holds no more than its capacity.
    pub closed spec fn wf(&self) -> bool {
        self.waiting@.len() <= self.capacity
    }

    /// What `wf` says, over the view.
    pub proof fn lemma_wf_bounds(&self)
        ensures
            self.wf() <==> self@.len() <= self.spec_capacity(),
    {
    }

    /// An empty queue of the usual capacity.
    pub fn new() -> (queue: Self)
        ensures
            queue.wf(),
            queue@ == Seq::<T>::empty(),
            queue.spec_capacity() == ALERT_QUEUE_CAPACITY,
    {
        AlertQueue { waiting: VecDeque::new(), capacity: ALERT_QUEUE_CAPACITY }
    }

    /// An empty queue in which at most `capacity` items wait.
    pub fn with_capacity(capacity: usize) -> (queue: Self)
        ensures
            queue.wf(),
            queue@ == Seq::<T>::empty(),
            queue.spec_capacity() == capacity,
    {
        AlertQueue { waiting: VecDeque::new(), capacity }
    }

    pub fn len(&self) -> (len: usize)
        ensures
            len == self@.len(),
    {
        self.waiting.len()
    }

    pub fn is_empty(&self) -> (empty: bool)
        ensures
            empty == (self@.len() == 0),
    {
        self.waiting.len() == 0
    }

    /// Offers `item` to the queue. A full queue drops it and says so.
    pub fn try_send(&mut self, item: T) -> (accepted: bool)
        requires
            old(self).wf(),
        ensures
            final(self).wf(),
            final(self).spec_capacity() == old(self).spec_capacity(),
            accepted == (old(self)@.len() < old(self).spec_capacity()),
            final(self)@ == offered(old(self)@, old(self).spec_capacity(), item),
    {
        if self.waiting.len() < self.capacity {
            self.waiting.push_back(item);
            true
        } else {
            false
        }
    }

    /// Takes the item that has waited longest, if any waits.
    pub fn recv(&mut self) -> (item: Option<T>)
        requires
            old(self).wf(),
        ensures
            final(self).wf(),
            final(self).spec_capacity() == old(self).spec_capacity(),
            old(self)@.len() == 0 ==> item is None && final(self)@ == old(self)@,
            old(self)@.len() > 0 ==> item == Some(old(self)@[0]) && final(self)@ == old(self)@.skip(
                1,
            ),
    {
        let item = self.waiting.pop_front();
        proof {
            if old(self)@.len() > 0 {
                assert(final(self).waiting@ =~= old(self)@.skip(1));
            }
        }
        item
    }
}

/// Items offered to a queue with room for all of them wait in the order
/// they were offered, behind what waited before.
pub proof fn lemma_offers_keep_order<T>(waiting: Seq<T>, capacity: nat, items: Seq<T>)
    requires
        waiting.len() + items.len() <= capacity,
    ensures
        offered_all(waiting, capacity, items) == waiting + items,
    decreases items.len(),
{
    if items.len() == 0 {
        assert(waiting + items =~= waiting);
    } else {
        lemma_offers_keep_order(waiting, capacity, items.drop_last());
        assert(waiting + items =~= (waiting + items.drop_last()).push(items.last()));
    }
}

/// However many items are offered, the queue never outgrows its capacity,
/// and what waited before keeps its place at the front.
pub proof fn lemma_offers_stay_bounded<T>(waiting: Seq<T>, capacity: nat, items: Seq<T>)
    requires
        waiting.len() <= capacity,
    ensures
        offered_all(waiting, capacity, items).len() <= capacity,
        offered_all(waiting, capacity, items).len() >= waiting.len(),
        offered_all(waiting, capacity, items).take(waiting.len() as int) == waiting,
    decreases items.len(),
{
    if items.len() == 0 {
        assert(waiting.take(waiting.len() as int) =~= waiting);
    } else {
        lemma_offers_stay_bounded(waiting, capacity, items.drop_last());
        let before = offered_all(waiting, capacity, items.drop_last());
        let after = offered(before, capacity, items.last());
        assert(after.take(waiting.len() as int) =~= before.take(waiting.len() as int));
    }
}

/// What `str::to_uppercase` makes of a text.
pub uninterp spec fn uppercase_of(text: Seq<char>) -> Seq<char>;

/// `str::to_uppercase`: the text with every character replaced by its
/// upper-case form, as the Unicode tables of the standard library give it.
/// The result depends on the text alone.
#[verifier::external_body]
fn to_uppercase(text: &str) -> (upper: String)
    ensures
        upper@ == uppercase_of(text@),
{
    text.to_uppercase()
}

/// The message that tells of a reading `value` of the kind `label` on the
/// machine `hostname`, above `threshold`.
pub open spec fn alert_text(
    label: Seq<char>,
    hostname: Seq<char>,
    value: u64,
    threshold: u64,
) -> Seq<char> {
    "\u{1F6A8} *Alert*: "@ + label + " on `"@ + hostname + "` is at "@ + one_decimal(value)
        + "% (threshold: "@ + one_decimal(threshold) + "%)"@
}

/// Writes the message for one alert.
pub fn format_alert(label: &str, hostname: &str, value: u64, threshold: u64) -> (text: String)
    ensures
        text@ == alert_text(label@, hostname@, value, threshold),
{
    let mut text = String::from_str("\u{1F6A8} *Alert*: ");
    text.append(label);
    text.append(" on `");
    text.append(hostname);
    text.append("` is at ");
    text.append(one_decimal_text(value).as_str());
    text.append("% (threshold: ");
    text.append(one_decimal_text(threshold).as_str());
    text.append("%)");
    text
}

/// The key of the setting that holds the webhook to notify.
pub fn webhook_setting_key() -> (key: String)
    ensures
        key@ == webhook_setting(),
{
    String::from_str("slack_webhook_url")
}

/// Whether a notification that met `response` has arrived. One that has not
/// is given up: it is not sent again, and the next event is not held up.
pub fn notification_delivered(response: TransportResult) -> (arrived: bool)
    ensures
        arrived == (response is Status && is_success(response->Status_0)),
{
    match response {
        TransportResult::Status(status) => status_is_success(status),
        TransportResult::Failed => false,
    }
}

/// One message on its way to one webhook.
#[derive(Debug, Clone, PartialEq, Eq)]
pub struct Notification {
    pub url: String,
    pub text: String,
}

/// Whether a webhook is configured: the setting is there and not empty.
pub open spec fn webhook_configured(webhook: Option<String>) -> bool {
    webhook is Some && webhook->Some_0@.len() > 0
}

/// The name that a client is shown under: its host name if the client is
/// known, else its id.
pub open spec fn display_name(hostname: Option<String>, client_id: Seq<char>) -> Seq<char> {
    match hostname {
        Some(name) => name@,
        None => client_id,
    }
}

/// Decides what to send for `event`, given the configured webhook and the
/// host name of the event's client as the store knows them. Without a
/// webhook the event is dropped. An unknown client is shown by its id.
pub fn plan_notification(
    event: &AlertEvent,
    webhook: Option<String>,
    hostname: Option<String>,
) -> (plan: Option<Notification>)
    ensures
        plan is Some <==> webhook_configured(webhook),
        plan is Some ==> plan->Some_0.url == webhook->Some_0,
        plan is Some ==> plan->Some_0.text@ == alert_text(
            uppercase_of(event.rule.metric_type@),
            display_name(hostname, event.client_id@),
            event.observed_value,
            event.rule.threshold,
        ),
{
    let url = match webhook {
        Some(url) => url,
        None => {
            return None;
        },
    };
    if url.as_str().is_empty() {
        return None;
    }
    let label = to_uppercase(event.rule.metric_type.as_str());
    let text = match &hostname {
        Some(name) => format_alert(
            label.as_str(),
            name.as_str(),
            event.observed_value,
            event.rule.threshold,
        ),
        None => format_alert(
            label.as_str(),
            event.client_id.as_str(),
            event.observed_value,
            event.rule.threshold,
        ),
    };
    Some(Notification { url, text })
}

} // verus!
