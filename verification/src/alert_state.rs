//! The states of an alert, what an evaluation does to them, and the table of
//! alerts that the server holds in memory.

use vstd::prelude::*;
use vstd::string::*;
use crate::alert_rules::AlertError;
use crate::alerts::AlertConfig;
use crate::alerts::AlertState;
use crate::alerts::LogicalOperator;
use crate::timefilter::TimeRange;
use crate::alerts::Severity;
use crate::notify::Context;
use crate::notify::DeploymentInfo;
use crate::text::lemma_filter_prefix_step;
use crate::text::has_name;
use crate::text::is_name_of;

verus! {

/// How the evaluation of one tick ended.
#[derive(Clone, Copy, Debug, PartialEq, Eq, Structural)]
pub enum EvalOutcome {
    /// The query ran and the aggregate condition holds.
    Satisfied,
    /// The query ran and the aggregate condition does not hold.
    NotSatisfied,
    /// The query could not be run.
    Failed,
}

/// One step that the scheduler takes after an evaluation, in the order in
/// which the steps are listed.
#[derive(Clone, Copy, Debug, PartialEq, Eq, Structural)]
pub enum TickAction {
    /// Store the alert with this state.
    Persist(AlertState),
    /// Call every target of the alert.
    Notify,
}

/// What follows from one tick: the state of the alert after it and the
/// steps to take.
#[derive(Debug)]
pub struct TickPlan {
    pub next: AlertState,
    pub actions: Vec<TickAction>,
}

/// The window that an evaluation at the instant `now` looks at: the
/// `eval_start` milliseconds up to `now`, which is excluded. A window that
/// would begin before the first instant that can be written begins there.
pub fn rolling_window(now: i64, eval_start: u64) -> (window: TimeRange)
    ensures
        window.end == now,
        window.start == if now - eval_start >= i64::MIN {
            now - eval_start
        } else {
            i64::MIN as int
        },
{
    let wanted: i128 = now as i128 - eval_start as i128;
    let start: i64 = if wanted < i64::MIN as i128 {
        i64::MIN
    } else {
        wanted as i64
    };
    TimeRange { start, end: now }
}

/// Whether the condition of an alert holds, given for each of its
/// aggregates whether the aggregate passes its threshold: the one result
/// where there is no operator, both results for `And`, either for `Or`.
/// Nothing where the results are not as many as the operator joins.
pub fn condition_met(operator: Option<LogicalOperator>, results: &Vec<bool>) -> (met: Option<bool>)
    ensures
        met == match operator {
            None => if results@.len() == 1 {
                Some(results@[0])
            } else {
                None
            },
            Some(LogicalOperator::And) => if results@.len() == 2 {
                Some(results@[0] && results@[1])
            } else {
                None
            },
            Some(LogicalOperator::Or) => if results@.len() == 2 {
                Some(results@[0] || results@[1])
            } else {
                None
            },
        },
{
    match operator {
        None => if results.len() == 1 {
            Some(results[0])
        } else {
            None
        },
        Some(LogicalOperator::And) => if results.len() == 2 {
            Some(results[0] && results[1])
        } else {
            None
        },
        Some(LogicalOperator::Or) => if results.len() == 2 {
            Some(results[0] || results[1])
        } else {
            None
        },
    }
}

/// How a tick ended, from whether the query ran and what its condition
/// came to.
pub fn outcome_of(met: Option<bool>) -> (outcome: EvalOutcome)
    ensures
        outcome == match met {
            Some(true) => EvalOutcome::Satisfied,
            Some(false) => EvalOutcome::NotSatisfied,
            None => EvalOutcome::Failed,
        },
{
    match met {
        Some(true) => EvalOutcome::Satisfied,
        Some(false) => EvalOutcome::NotSatisfied,
        None => EvalOutcome::Failed,
    }
}

/// The state of an alert after a tick. A failed evaluation changes nothing.
/// An alert that is silenced stays so until its silence is over. Otherwise
/// the alert is triggered when the condition holds and resolved when it does
/// not.
pub open spec fn next_state(state: AlertState, silence_over: bool, outcome: EvalOutcome) -> AlertState {
    match outcome {
        EvalOutcome::Failed => state,
        EvalOutcome::Satisfied => if state == AlertState::Silenced && !silence_over {
            AlertState::Silenced
        } else {
            AlertState::Triggered
        },
        EvalOutcome::NotSatisfied => if state == AlertState::Silenced && !silence_over {
            AlertState::Silenced
        } else {
            AlertState::Resolved
        },
    }
}

/// The steps of a tick that takes an alert from `state` to `next`: none when
/// the state stays; otherwise the new state is stored, and targets are
/// notified after that when the alert has become triggered.
pub open spec fn planned_actions(state: AlertState, next: AlertState) -> Seq<TickAction> {
    if next == state {
        Seq::empty()
    } else if next == AlertState::Triggered {
        seq![TickAction::Persist(AlertState::Triggered), TickAction::Notify]
    } else {
        seq![TickAction::Persist(next)]
    }
}

/// Decides what one tick does to an alert in `state`. `silence_over` says
/// whether a silence, if the alert is under one, has run out.
pub fn on_tick(state: AlertState, silence_over: bool, outcome: EvalOutcome) -> (plan: TickPlan)
    ensures
        plan.next == next_state(state, silence_over, outcome),
        plan.actions@ == planned_actions(state, plan.next),
{
    let held = state == AlertState::Silenced && !silence_over;
    let next = match outcome {
        EvalOutcome::Failed => state,
        EvalOutcome::Satisfied => if held {
            AlertState::Silenced
        } else {
            AlertState::Triggered
        },
        EvalOutcome::NotSatisfied => if held {
            AlertState::Silenced
        } else {
            AlertState::Resolved
        },
    };
    let mut actions: Vec<TickAction> = Vec::new();
    if next != state {
        actions.push(TickAction::Persist(next));
        if next == AlertState::Triggered {
            actions.push(TickAction::Notify);
        }
    }
    proof {
        assert(actions@ =~= planned_actions(state, next));
    }
    TickPlan { next, actions }
}

/// A resolved alert whose condition holds at a tick becomes triggered, and
/// the new state is stored before any target is called. In no plan does a
/// notification come without the triggered state having been stored first,
/// and nothing that happens to a notification enters the next state: the
/// stored state stands whether or not the notification is delivered.
pub proof fn lemma_state_is_stored_before_notifying(
    state: AlertState,
    silence_over: bool,
    outcome: EvalOutcome,
)
    ensures
        state == AlertState::Resolved && outcome == EvalOutcome::Satisfied ==> next_state(
            state,
            silence_over,
            outcome,
        ) == AlertState::Triggered && planned_actions(state, AlertState::Triggered) == seq![
            TickAction::Persist(AlertState::Triggered),
            TickAction::Notify,
        ],
        forall|k: int|
            #![trigger planned_actions(state, next_state(state, silence_over, outcome))[k]]
            0 <= k < planned_actions(state, next_state(state, silence_over, outcome)).len()
                && planned_actions(state, next_state(state, silence_over, outcome))[k]
                == TickAction::Notify ==> k == 1 && planned_actions(
                state,
                next_state(state, silence_over, outcome),
            )[0] == TickAction::Persist(AlertState::Triggered),
{
}

/// A tick whose evaluation fails leaves the alert as it is and takes no step.
pub proof fn lemma_failed_tick_changes_nothing(state: AlertState, silence_over: bool)
    ensures
        next_state(state, silence_over, EvalOutcome::Failed) == state,
        planned_actions(state, state).len() == 0,
{
}

/// The 32 characters with which a ULID is written, in the order of their
/// values.
pub const ULID_ALPHABET: &'static str = "0123456789ABCDEFGHJKMNPQRSTVWXYZ";

/// The text of a ULID: 26 characters, each standing for five bits of the
/// number, the highest bits first.
pub open spec fn ulid_text(id: u128) -> Seq<char> {
    Seq::new(26, |at: int| ULID_ALPHABET@[((id >> ((5 * (25 - at)) as u128)) & 0x1f) as int])
}

/// Makes a `ulid::Ulid` of the number and calls its `to_string`, which
/// writes the number in 26 characters: it takes the lowest five bits for the
/// last character, shifts the number by five bits, and so on to the first.
#[verifier::external_body]
pub(crate) fn ulid_text_of(id: u128) -> (text: String)
    ensures
        text@ == ulid_text(id),
{
    ulid::Ulid::from(id).to_string()
}

/// The alerts that the server knows, each under its own identifier.
#[derive(Debug)]
pub struct Alerts {
    pub alerts: Vec<AlertConfig>,
}

/// How many alerts are in each state and of each severity.
#[derive(Clone, Copy, Debug, PartialEq, Eq, Structural)]
pub struct AlertsInfo {
    pub total: u64,
    pub silenced: u64,
    pub resolved: u64,
    pub triggered: u64,
    pub low: u64,
    pub medium: u64,
    pub high: u64,
    pub critical: u64,
}

/// Whether no alert of the list has the identifier `id`.
pub open spec fn absent(alerts: Seq<AlertConfig>, id: u128) -> bool {
    forall|j: int| 0 <= j < alerts.len() ==> (#[trigger] alerts[j]).id != id
}

/// Whether position `i` holds the first alert with the identifier `id`.
pub open spec fn first_at(alerts: Seq<AlertConfig>, id: u128, i: int) -> bool {
    &&& 0 <= i < alerts.len()
    &&& alerts[i].id == id
    &&& forall|j: int| 0 <= j < i ==> (#[trigger] alerts[j]).id != id
}

/// The number of alerts in a state.
pub open spec fn count_state(alerts: Seq<AlertConfig>, state: AlertState) -> nat {
    alerts.filter(|a: AlertConfig| a.state == state).len()
}

/// The number of alerts of a severity.
pub open spec fn count_severity(alerts: Seq<AlertConfig>, severity: Severity) -> nat {
    alerts.filter(|a: AlertConfig| a.severity == severity).len()
}

/// The message that reports a missing alert.
pub open spec fn missing_alert_text(id: u128) -> Seq<char> {
    "No alert found for the given ID- "@ + ulid_text(id)
}

/// The message that reports that an alert without state was asked for its
/// state.
pub open spec fn missing_state_text(id: u128) -> Seq<char> {
    "No alert present for ID- "@ + ulid_text(id)
}

/// Whether `error` hands on the failure with which the store answered.
pub open spec fn is_storage_error(error: AlertError, stored: Result<(), String>) -> bool {
    match stored {
        Err(failure) => error matches AlertError::ObjectStorage(text) && text == failure,
        Ok(_) => false,
    }
}

/// Whether `contexts` is what is to be sent about `alert`: nothing without
/// a message, and with a message one context for each target of the alert,
/// each with the alert's identifier, title, state and severity, the
/// deployment and the message.
pub open spec fn is_dispatch(
    contexts: Seq<Context>,
    alert: AlertConfig,
    trigger_notif: Option<String>,
    deployment: DeploymentInfo,
) -> bool {
    match trigger_notif {
        None => contexts.len() == 0,
        Some(message) => {
            &&& contexts.len() == alert.targets@.len()
            &&& forall|k: int|
                0 <= k < contexts.len() ==> {
                    &&& (#[trigger] contexts[k]).alert_info.alert_id == alert.id
                    &&& contexts[k].alert_info.alert_name == alert.title
                    &&& contexts[k].alert_info.alert_state == alert.state
                    &&& contexts[k].alert_info.severity@ == alert.severity.name()
                    &&& contexts[k].deployment_info == deployment
                    &&& contexts[k].message == message
                }
        },
    }
}

/// Whether `error` is a custom error with the message `text`.
pub open spec fn is_custom_error(error: AlertError, text: Seq<char>) -> bool {
    error matches AlertError::CustomError(message) && message@ == text
}

impl Alerts {
    /// No identifier occurs twice.
    pub open spec fn wf(self) -> bool {
        forall|i: int, j: int|
            0 <= i < j < self.alerts@.len() ==> (#[trigger] self.alerts@[i]).id != (
            #[trigger] self.alerts@[j]).id
    }

    /// A table without alerts.
    pub fn new() -> (table: Alerts)
        ensures
            table.wf(),
            table.alerts@.len() == 0,
    {
        Alerts { alerts: Vec::new() }
    }

    /// Finds the first alert with the identifier `id`.
    pub fn position(&self, id: u128) -> (found: Option<usize>)
        ensures
            match found {
                Some(i) => first_at(self.alerts@, id, i as int),
                None => absent(self.alerts@, id),
            },
    {
        let mut i: usize = 0;
        while i < self.alerts.len()
            invariant
                i <= self.alerts.len(),
                forall|j: int| 0 <= j < i ==> (#[trigger] self.alerts@[j]).id != id,
            decreases self.alerts.len() - i,
        {
            if self.alerts[i].id == id {
                return Some(i);
            }
            i += 1;
        }
        None
    }

    /// The alert with the identifier `id`.
    pub fn get_alert_by_id(&self, id: u128) -> (outcome: Result<&AlertConfig, AlertError>)
        ensures
            match outcome {
                Ok(alert) => exists|i: int| first_at(self.alerts@, id, i) && *alert == self.alerts@[i],
                Err(error) => absent(self.alerts@, id) && is_custom_error(
                    error,
                    missing_alert_text(id),
                ),
            },
    {
        match self.position(id) {
            Some(i) => Ok(&self.alerts[i]),
            None => {
                let mut text = "No alert found for the given ID- ".to_owned();
                let name = ulid_text_of(id);
                text.append(name.as_str());
                Err(AlertError::CustomError(text))
            },
        }
    }

    /// The state of the alert with the identifier `id`.
    pub fn get_state(&self, alert_id: u128) -> (outcome: Result<AlertState, AlertError>)
        ensures
            match outcome {
                Ok(state) => exists|i: int|
                    first_at(self.alerts@, alert_id, i) && state == self.alerts@[i].state,
                Err(error) => absent(self.alerts@, alert_id) && is_custom_error(
                    error,
                    missing_state_text(alert_id),
                ),
            },
    {
        match self.position(alert_id) {
            Some(i) => Ok(self.alerts[i].state),
            None => {
                let mut text = "No alert present for ID- ".to_owned();
                let name = ulid_text_of(alert_id);
                text.append(name.as_str());
                Err(AlertError::CustomError(text))
            },
        }
    }

    /// Puts an alert into the table, in place of the one with the same
    /// identifier where there is one, at the end otherwise.
    pub fn update(&mut self, alert: AlertConfig)
        ensures
            absent(old(self).alerts@, alert.id) ==> final(self).alerts@ == old(self).alerts@.push(
                alert,
            ),
            forall|i: int|
                first_at(old(self).alerts@, alert.id, i) ==> final(self).alerts@ == old(
                    self,
                ).alerts@.update(i, alert),
            old(self).wf() ==> final(self).wf(),
    {
        match self.position(alert.id) {
            Some(i) => {
                self.alerts.set(i, alert);
            },
            None => {
                self.alerts.push(alert);
            },
        }
    }

    /// Sets the state of the alert with the identifier `alert_id` and leaves
    /// everything else as it is.
    pub fn update_state(&mut self, alert_id: u128, new_state: AlertState) -> (outcome: Result<
        (),
        AlertError,
    >)
        ensures
            final(self).alerts@.len() == old(self).alerts@.len(),
            match outcome {
                Ok(_) => exists|i: int|
                    first_at(old(self).alerts@, alert_id, i) && final(self).alerts@ == old(
                        self,
                    ).alerts@.update(
                        i,
                        (AlertConfig { state: new_state, ..old(self).alerts@[i] }),
                    ),
                Err(error) => absent(old(self).alerts@, alert_id) && *final(self) == *old(self)
                    && is_custom_error(error, missing_alert_text(alert_id)),
            },
            old(self).wf() ==> final(self).wf(),
    {
        match self.position(alert_id) {
            Some(i) => {
                let mut alert = self.alerts.remove(i);
                alert.state = new_state;
                self.alerts.insert(i, alert);
                proof {
                    assert(self.alerts@ =~= old(self).alerts@.update(
                        i as int,
                        (AlertConfig { state: new_state, ..old(self).alerts@[i as int] }),
                    ));
                }
                Ok(())
            },
            None => {
                let mut text = "No alert found for the given ID- ".to_owned();
                let name = ulid_text_of(alert_id);
                text.append(name.as_str());
                Err(AlertError::CustomError(text))
            },
        }
    }

    /// Finishes a change of state after the store was asked to write the
    /// alert with its new state. `stored` is what the store answered. Where
    /// the store failed, its failure is handed on, the table stays as it is
    /// and nothing is to be sent. Where it succeeded, the state is set in
    /// the table, and the result holds what is to be sent: one context for
    /// each target where `trigger_notif` gives a message, nothing otherwise.
    /// An alert that is not in the table is reported as missing, whatever
    /// the store answered.
    pub fn commit_state(
        &mut self,
        alert_id: u128,
        new_state: AlertState,
        trigger_notif: Option<String>,
        stored: Result<(), String>,
        deployment: DeploymentInfo,
    ) -> (outcome: Result<Vec<Context>, AlertError>)
        ensures
            match outcome {
                Ok(contexts) => stored.is_ok() && exists|i: int|
                    first_at(old(self).alerts@, alert_id, i) && final(self).alerts@ == old(
                        self,
                    ).alerts@.update(
                        i,
                        (AlertConfig { state: new_state, ..old(self).alerts@[i] }),
                    ) && is_dispatch(
                        contexts@,
                        (AlertConfig { state: new_state, ..old(self).alerts@[i] }),
                        trigger_notif,
                        deployment,
                    ),
                Err(error) => *final(self) == *old(self) && if absent(
                    old(self).alerts@,
                    alert_id,
                ) {
                    is_custom_error(error, missing_alert_text(alert_id))
                } else {
                    is_storage_error(error, stored)
                },
            },
            old(self).wf() ==> final(self).wf(),
    {
        match self.position(alert_id) {
            Some(i) => {
                match stored {
                    Err(failure) => Err(AlertError::ObjectStorage(failure)),
                    Ok(_) => {
                        let mut alert = self.alerts.remove(i);
                        alert.state = new_state;
                        let contexts = match trigger_notif {
                            Some(message) => alert.trigger_notifications(deployment, message),
                            None => Vec::new(),
                        };
                        self.alerts.insert(i, alert);
                        proof {
                            assert(self.alerts@ =~= old(self).alerts@.update(
                                i as int,
                                (AlertConfig { state: new_state, ..old(self).alerts@[i as int] }),
                            ));
                        }
                        Ok(contexts)
                    },
                }
            },
            None => {
                let mut text = "No alert found for the given ID- ".to_owned();
                let name = ulid_text_of(alert_id);
                text.append(name.as_str());
                Err(AlertError::CustomError(text))
            },
        }
    }

    /// Takes the alert with the identifier `alert_id` out of the table and
    /// says whether there was one.
    pub fn delete(&mut self, alert_id: u128) -> (removed: bool)
        ensures
            removed == !absent(old(self).alerts@, alert_id),
            !removed ==> *final(self) == *old(self),
            forall|i: int|
                first_at(old(self).alerts@, alert_id, i) ==> final(self).alerts@ == old(
                    self,
                ).alerts@.remove(i),
            old(self).wf() ==> final(self).wf() && absent(final(self).alerts@, alert_id),
    {
        match self.position(alert_id) {
            Some(i) => {
                self.alerts.remove(i);
                true
            },
            None => false,
        }
    }

    /// The alerts on streams that a user may query, in the order of the
    /// table. `authorized_streams` names those streams.
    pub fn list_alerts_for_user(&self, authorized_streams: &Vec<String>) -> (alerts: Vec<
        &AlertConfig,
    >)
        ensures
            alerts@.map_values(|a: &AlertConfig| *a) == self.alerts@.filter(
                |a: AlertConfig| has_name(authorized_streams@, a.stream@),
            ),
    {
        let ghost keep = |a: AlertConfig| has_name(authorized_streams@, a.stream@);
        let ghost deref = |a: &AlertConfig| *a;
        let mut alerts: Vec<&AlertConfig> = Vec::new();
        let mut i: usize = 0;
        proof {
            assert(alerts@.map_values(deref) =~= self.alerts@.subrange(0, 0).filter(keep));
        }
        while i < self.alerts.len()
            invariant
                i <= self.alerts.len(),
                keep == (|a: AlertConfig| has_name(authorized_streams@, a.stream@)),
                deref == (|a: &AlertConfig| *a),
                alerts@.map_values(deref) == self.alerts@.subrange(0, i as int).filter(keep),
            decreases self.alerts.len() - i,
        {
            proof {
                lemma_filter_prefix_step(self.alerts@, i as int, keep);
            }
            let ghost before = alerts@;
            if is_name_of(authorized_streams, self.alerts[i].stream.as_str()) {
                alerts.push(&self.alerts[i]);
                proof {
                    assert(alerts@.map_values(deref) =~= before.map_values(deref).push(
                        self.alerts@[i as int],
                    ));
                }
            }
            i += 1;
        }
        proof {
            assert(self.alerts@.subrange(0, i as int) =~= self.alerts@);
        }
        alerts
    }
}

/// Counts the alerts by state and by severity.
pub fn get_alerts_info(table: &Alerts) -> (info: AlertsInfo)
    ensures
        info.total == table.alerts@.len(),
        info.silenced == count_state(table.alerts@, AlertState::Silenced),
        info.resolved == count_state(table.alerts@, AlertState::Resolved),
        info.triggered == count_state(table.alerts@, AlertState::Triggered),
        info.low == count_severity(table.alerts@, Severity::Low),
        info.medium == count_severity(table.alerts@, Severity::Medium),
        info.high == count_severity(table.alerts@, Severity::High),
        info.critical == count_severity(table.alerts@, Severity::Critical),
{
    let mut silenced: u64 = 0;
    let mut resolved: u64 = 0;
    let mut triggered: u64 = 0;
    let mut low: u64 = 0;
    let mut medium: u64 = 0;
    let mut high: u64 = 0;
    let mut critical: u64 = 0;
    let mut i: usize = 0;
    while i < table.alerts.len()
        invariant
            i <= table.alerts.len(),
            silenced <= i && resolved <= i && triggered <= i,
            low <= i && medium <= i && high <= i && critical <= i,
            silenced == count_state(table.alerts@.subrange(0, i as int), AlertState::Silenced),
            resolved == count_state(table.alerts@.subrange(0, i as int), AlertState::Resolved),
            triggered == count_state(table.alerts@.subrange(0, i as int), AlertState::Triggered),
            low == count_severity(table.alerts@.subrange(0, i as int), Severity::Low),
            medium == count_severity(table.alerts@.subrange(0, i as int), Severity::Medium),
            high == count_severity(table.alerts@.subrange(0, i as int), Severity::High),
            critical == count_severity(table.alerts@.subrange(0, i as int), Severity::Critical),
        decreases table.alerts.len() - i,
    {
        proof {
            let all = table.alerts@;
            let at = i as int;
            lemma_filter_prefix_step(all, at, |a: AlertConfig| a.state == AlertState::Silenced);
            lemma_filter_prefix_step(all, at, |a: AlertConfig| a.state == AlertState::Resolved);
            lemma_filter_prefix_step(all, at, |a: AlertConfig| a.state == AlertState::Triggered);
            lemma_filter_prefix_step(all, at, |a: AlertConfig| a.severity == Severity::Low);
            lemma_filter_prefix_step(all, at, |a: AlertConfig| a.severity == Severity::Medium);
            lemma_filter_prefix_step(all, at, |a: AlertConfig| a.severity == Severity::High);
            lemma_filter_prefix_step(all, at, |a: AlertConfig| a.severity == Severity::Critical);
        }
        match table.alerts[i].state {
            AlertState::Silenced => silenced += 1,
            AlertState::Resolved => resolved += 1,
            AlertState::Triggered => triggered += 1,
        }
        match table.alerts[i].severity {
            Severity::Low => low += 1,
            Severity::Medium => medium += 1,
            Severity::High => high += 1,
            Severity::Critical => critical += 1,
        }
        i += 1;
    }
    proof {
        assert(table.alerts@.subrange(0, i as int) =~= table.alerts@);
    }
    AlertsInfo {
        total: table.alerts.len() as u64,
        silenced,
        resolved,
        triggered,
        low,
        medium,
        high,
        critical,
    }
}

} // verus!
