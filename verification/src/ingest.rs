//! Ingestion of one batch on the collector, as a sequence of decisions.
//!
//! The store is asked one thing at a time. Each answer is handed to `step`,
//! which says what to ask next or how to answer the agent. The order is
//! fixed: find the client by its credential, record that it was seen, store
//! the samples, then hold the last stored sample against the client's rules.
//! Once the samples are stored the batch is accepted, whatever becomes of
//! the alert evaluation.

use vstd::prelude::*;
use crate::alerts::{check_alerts, evaluate_rules, event_views, rule_views, AlertEvent, AlertEventView};
use crate::debounce::{DebounceKey, DebounceStore};
use crate::models::{AlertRule, Client, Metric};
use crate::text::{has_prefix, strip_prefix};

verus! {

/// The batch was accepted.
pub const STATUS_OK: u16 = 200;

/// The credential is missing or unknown.
pub const STATUS_UNAUTHORIZED: u16 = 401;

/// The store failed, or was answered out of turn.
pub const STATUS_INTERNAL_ERROR: u16 = 500;

/// What introduces a bearer credential in an authorization header.
pub open spec fn bearer_prefix() -> Seq<char> {
    "Bearer "@
}

/// The credential that an authorization header carries, if it carries one.
pub open spec fn bearer_of(header: Option<Seq<char>>) -> Option<Seq<char>> {
    match header {
        Some(text) => if has_prefix(text, bearer_prefix()) {
            Some(text.skip(bearer_prefix().len() as int))
        } else {
            None
        },
        None => None,
    }
}

/// The view of an optional text.
pub open spec fn opt_view(text: Option<&str>) -> Option<Seq<char>> {
    match text {
        Some(t) => Some(t@),
        None => None,
    }
}

/// Reads the bearer credential off an authorization header.
pub fn bearer_token(header: Option<&str>) -> (token: Option<String>)
    ensures
        crate::models::opt_text(token) == bearer_of(opt_view(header)),
{
    match header {
        Some(text) => strip_prefix(text, "Bearer "),
        None => None,
    }
}

/// How far the ingestion of a batch has come.
#[derive(Debug, PartialEq, Eq, Clone, Copy)]
pub enum Phase {
    /// The store was asked for the client of the credential.
    FindingClient,
    /// The store was asked to record that the client was seen.
    Touching,
    /// The store was asked to persist the samples.
    Inserting,
    /// The store was asked for the rules that apply to the client.
    FetchingRules,
    /// The agent has its answer.
    Done,
}

/// What the store answered.
pub enum StoreReply {
    /// The client of the credential, if there is one.
    Client(Option<Client>),
    /// The client's last contact is recorded.
    Touched,
    /// The samples are stored: here they are, in order, with their ids.
    Inserted(Vec<Metric>),
    /// The rules that apply to the client.
    Rules(Vec<AlertRule>),
    /// The store could not do what it was asked.
    Failed,
}

/// What to do next.
pub enum IngestAction {
    /// Ask the store for the client with this credential.
    FindClient(String),
    /// Ask the store to record that this client was seen, with the batch's
    /// agent version.
    TouchClient(String),
    /// Ask the store to persist the batch's samples for this client, in
    /// order.
    InsertMetrics(String),
    /// Ask the store for the rules that apply to this client.
    FetchRules(String),
    /// Answer the agent with this status, and hand these events to the
    /// dispatcher.
    Respond(u16, Vec<AlertEvent>),
}

/// An action, with its strings as character sequences.
pub enum IngestActionView {
    FindClient(Seq<char>),
    TouchClient(Seq<char>),
    InsertMetrics(Seq<char>),
    FetchRules(Seq<char>),
    Respond(u16, Seq<AlertEventView>),
}

impl View for IngestAction {
    type V = IngestActionView;

    open spec fn view(&self) -> IngestActionView {
        match *self {
            IngestAction::FindClient(token) => IngestActionView::FindClient(token@),
            IngestAction::TouchClient(id) => IngestActionView::TouchClient(id@),
            IngestAction::InsertMetrics(id) => IngestActionView::InsertMetrics(id@),
            IngestAction::FetchRules(id) => IngestActionView::FetchRules(id@),
            IngestAction::Respond(status, events) => IngestActionView::Respond(
                status,
                event_views(events@),
            ),
        }
    }
}

/// The state of an ingestion: its phase, the client once it is known, and
/// the last stored sample once there is one.
pub struct IngestState {
    pub phase: Phase,
    pub client_id: Seq<char>,
    pub latest: Option<Metric>,
}

/// The outcome of one step: the state after it, the action it asks for, and
/// the debounce state it leaves.
pub struct StepOutcome {
    pub state: IngestState,
    pub action: IngestActionView,
    pub fired: Map<DebounceKey, u64>,
}

/// The outcome that ends an ingestion with `status` and no event.
pub open spec fn finished(
    state: IngestState,
    status: u16,
    fired: Map<DebounceKey, u64>,
) -> StepOutcome {
    StepOutcome {
        state: IngestState { phase: Phase::Done, client_id: state.client_id, latest: state.latest },
        action: IngestActionView::Respond(status, Seq::empty()),
        fired,
    }
}

/// What the answer `reply` leads to in `state`, at the time `now` and with
/// the debounce state `fired`.
pub open spec fn ingest_step(
    state: IngestState,
    reply: StoreReply,
    fired: Map<DebounceKey, u64>,
    window: u64,
    now: u64,
) -> StepOutcome {
    match (state.phase, reply) {
        (Phase::FindingClient, StoreReply::Client(Some(client))) => StepOutcome {
            state: IngestState {
                phase: Phase::Touching,
                client_id: client.id@,
                latest: state.latest,
            },
            action: IngestActionView::TouchClient(client.id@),
            fired,
        },
        (Phase::FindingClient, StoreReply::Client(None)) => finished(
            state,
            STATUS_UNAUTHORIZED,
            fired,
        ),
        (Phase::Touching, StoreReply::Touched) => StepOutcome {
            state: IngestState {
                phase: Phase::Inserting,
                client_id: state.client_id,
                latest: state.latest,
            },
            action: IngestActionView::InsertMetrics(state.client_id),
            fired,
        },
        (Phase::Inserting, StoreReply::Inserted(metrics)) => if metrics@.len() > 0 {
            StepOutcome {
                state: IngestState {
                    phase: Phase::FetchingRules,
                    client_id: state.client_id,
                    latest: Some(metrics@.last()),
                },
                action: IngestActionView::FetchRules(state.client_id),
                fired,
            }
        } else {
            finished(state, STATUS_OK, fired)
        },
        (Phase::FetchingRules, StoreReply::Rules(rules)) => match state.latest {
            Some(metric) => {
                let evaluation = evaluate_rules(
                    fired,
                    window,
                    state.client_id,
                    rule_views(rules@),
                    metric,
                    now,
                );
                StepOutcome {
                    state: IngestState {
                        phase: Phase::Done,
                        client_id: state.client_id,
                        latest: state.latest,
                    },
                    action: IngestActionView::Respond(STATUS_OK, evaluation.events),
                    fired: evaluation.fired,
                }
            },
            None => finished(state, STATUS_OK, fired),
        },
        (Phase::FetchingRules, _) => finished(state, STATUS_OK, fired),
        _ => finished(state, STATUS_INTERNAL_ERROR, fired),
    }
}

/// The ingestion of one batch.
pub struct Ingestion {
    phase: Phase,
    client_id: String,
    latest: Option<Metric>,
}

impl View for Ingestion {
    type V = IngestState;

    closed spec fn view(&self) -> IngestState {
        IngestState { phase: self.phase, client_id: self.client_id@, latest: self.latest }
    }
}

impl Ingestion {
    /// Begins the ingestion of a batch that came with the authorization
    /// header `authorization`. Without a bearer credential the batch is
    /// refused at once; with one, the store is asked whose it is.
    pub fn start(authorization: Option<&str>) -> (begun: (Ingestion, IngestAction))
        ensures
            begun.0@.latest is None,
            begun.0@.client_id == Seq::<char>::empty(),
            match bearer_of(opt_view(authorization)) {
                Some(token) => begun.0@.phase == Phase::FindingClient && begun.1@
                    == IngestActionView::FindClient(token),
                None => begun.0@.phase == Phase::Done && begun.1@ == IngestActionView::Respond(
                    STATUS_UNAUTHORIZED,
                    Seq::empty(),
                ),
            },
    {
        match bearer_token(authorization) {
            Some(token) => (
                Ingestion { phase: Phase::FindingClient, client_id: String::new(), latest: None },
                IngestAction::FindClient(token),
            ),
            None => {
                let events: Vec<AlertEvent> = Vec::new();
                assert(event_views(events@) =~= Seq::<AlertEventView>::empty());
                (
                    Ingestion { phase: Phase::Done, client_id: String::new(), latest: None },
                    IngestAction::Respond(STATUS_UNAUTHORIZED, events),
                )
            },
        }
    }

    pub fn phase(&self) -> (phase: Phase)
        ensures
            phase == self@.phase,
    {
        self.phase
    }

    /// Ends the ingestion with `status` and no event.
    fn finish(&mut self, status: u16) -> (action: IngestAction)
        ensures
            final(self)@ == finished(old(self)@, status, Map::empty()).state,
            action@ == IngestActionView::Respond(status, Seq::empty()),
    {
        self.phase = Phase::Done;
        let events: Vec<AlertEvent> = Vec::new();
        assert(event_views(events@) =~= Seq::<AlertEventView>::empty());
        IngestAction::Respond(status, events)
    }

    /// Takes the store's answer to the last action and decides the next.
    /// Alerts are evaluated, against `store` and at the time `now`, only
    /// when the rules arrive, and only for the last stored sample. A
    /// failure before the samples are stored refuses the batch; a failure
    /// after that goes unnoticed by the agent.
    pub fn step(&mut self, reply: StoreReply, store: &mut DebounceStore, now: u64) -> (action:
        IngestAction)
        requires
            old(store).wf(),
        ensures
            final(store).wf(),
            final(store).spec_window() == old(store).spec_window(),
            final(self)@ == ingest_step(
                old(self)@,
                reply,
                old(store)@,
                old(store).spec_window(),
                now,
            ).state,
            action@ == ingest_step(
                old(self)@,
                reply,
                old(store)@,
                old(store).spec_window(),
                now,
            ).action,
            final(store)@ == ingest_step(
                old(self)@,
                reply,
                old(store)@,
                old(store).spec_window(),
                now,
            ).fired,
    {
        match self.phase {
            Phase::FindingClient => match reply {
                StoreReply::Client(Some(client)) => {
                    self.phase = Phase::Touching;
                    self.client_id = client.id.clone();
                    IngestAction::TouchClient(client.id)
                },
                StoreReply::Client(None) => self.finish(STATUS_UNAUTHORIZED),
                _ => self.finish(STATUS_INTERNAL_ERROR),
            },
            Phase::Touching => match reply {
                StoreReply::Touched => {
                    self.phase = Phase::Inserting;
                    IngestAction::InsertMetrics(self.client_id.clone())
                },
                _ => self.finish(STATUS_INTERNAL_ERROR),
            },
            Phase::Inserting => match reply {
                StoreReply::Inserted(metrics) => {
                    let mut metrics = metrics;
                    match metrics.pop() {
                        Some(last) => {
                            self.phase = Phase::FetchingRules;
                            self.latest = Some(last);
                            IngestAction::FetchRules(self.client_id.clone())
                        },
                        None => self.finish(STATUS_OK),
                    }
                },
                _ => self.finish(STATUS_INTERNAL_ERROR),
            },
            Phase::FetchingRules => match reply {
                StoreReply::Rules(rules) => {
                    self.phase = Phase::Done;
                    match &self.latest {
                        Some(metric) => {
                            let events = check_alerts(
                                store,
                                self.client_id.as_str(),
                                &rules,
                                metric,
                                now,
                            );
                            IngestAction::Respond(STATUS_OK, events)
                        },
                        None => self.finish(STATUS_OK),
                    }
                },
                _ => self.finish(STATUS_OK),
            },
            Phase::Done => self.finish(STATUS_INTERNAL_ERROR),
        }
    }
}

/// However an ingestion goes, the agent is told that its batch is accepted
/// only after the store has confirmed the samples: no answer out of the
/// phases before that is a success.
pub proof fn lemma_accepted_only_after_insert(
    state: IngestState,
    reply: StoreReply,
    fired: Map<DebounceKey, u64>,
    window: u64,
    now: u64,
)
    requires
        state.phase == Phase::FindingClient || state.phase == Phase::Touching || state.phase
            == Phase::Done,
    ensures
        ingest_step(state, reply, fired, window, now).action is Respond ==> ingest_step(
            state,
            reply,
            fired,
            window,
            now,
        ).action->Respond_0 != STATUS_OK,
        ingest_step(state, reply, fired, window, now).fired == fired,
{
}

/// Once the samples are stored the batch is accepted: whatever the store
/// answers to the request for rules, the agent is told of success.
pub proof fn lemma_rules_failure_is_isolated(
    state: IngestState,
    reply: StoreReply,
    fired: Map<DebounceKey, u64>,
    window: u64,
    now: u64,
)
    requires
        state.phase == Phase::FetchingRules,
    ensures
        ingest_step(state, reply, fired, window, now).state.phase == Phase::Done,
        ingest_step(state, reply, fired, window, now).action is Respond,
        ingest_step(state, reply, fired, window, now).action->Respond_0 == STATUS_OK,
        !(reply is Rules) ==> ingest_step(state, reply, fired, window, now).fired == fired,
{
}

/// A credential that the store does not know is refused, and nothing is
/// stored or evaluated for it.
pub proof fn lemma_unknown_credential_refused(
    state: IngestState,
    fired: Map<DebounceKey, u64>,
    window: u64,
    now: u64,
)
    requires
        state.phase == Phase::FindingClient,
    ensures
        ingest_step(state, StoreReply::Client(None), fired, window, now) == finished(
            state,
            STATUS_UNAUTHORIZED,
            fired,
        ),
{
}

} // verus!
