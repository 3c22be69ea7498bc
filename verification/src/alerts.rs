//! The configuration of an alert: what it watches, how it is evaluated and
//! whom it notifies.

use vstd::prelude::*;
use vstd::string::*;
use crate::text::str_eq;

verus! {

/// Version tag of the stored form of alerts.
pub const CURRENT_ALERTS_VERSION: &'static str = "v1";

/// Version of the stored form of an alert.
#[derive(Clone, Copy, Debug, PartialEq, Eq, Structural)]
pub enum AlertVerison {
    V1,
}

impl AlertVerison {
    /// Reads a version tag. The only tag is `v1`.
    pub fn from(value: &str) -> (version: AlertVerison)
        requires
            value@ == CURRENT_ALERTS_VERSION@,
        ensures
            version == AlertVerison::V1,
    {
        AlertVerison::V1
    }
}

impl Default for AlertVerison {
    fn default() -> (version: AlertVerison)
        ensures
            version == AlertVerison::V1,
    {
        AlertVerison::V1
    }
}

#[derive(Clone, Copy, Debug, PartialEq, Eq, Structural)]
pub enum AlertType {
    Threshold,
}

/// Comparison of an aggregate with its threshold.
#[derive(Clone, Copy, Debug, PartialEq, Eq, Structural)]
pub enum AlertOperator {
    GreaterThan,
    LessThan,
    Equal,
    NotEqual,
    GreaterThanOrEqual,
    LessThanOrEqual,
    IsNull,
    IsNotNull,
}

impl AlertOperator {
    /// The operator as it is written in a query.
    pub fn as_str(&self) -> (symbol: &'static str)
        ensures
            symbol@ == match *self {
                AlertOperator::GreaterThan => ">"@,
                AlertOperator::LessThan => "<"@,
                AlertOperator::Equal => "="@,
                AlertOperator::NotEqual => "!="@,
                AlertOperator::GreaterThanOrEqual => ">="@,
                AlertOperator::LessThanOrEqual => "<="@,
                AlertOperator::IsNull => "is null"@,
                AlertOperator::IsNotNull => "is not null"@,
            },
    {
        match self {
            AlertOperator::GreaterThan => ">",
            AlertOperator::LessThan => "<",
            AlertOperator::Equal => "=",
            AlertOperator::NotEqual => "!=",
            AlertOperator::GreaterThanOrEqual => ">=",
            AlertOperator::LessThanOrEqual => "<=",
            AlertOperator::IsNull => "is null",
            AlertOperator::IsNotNull => "is not null",
        }
    }
}

/// Operator of a condition on a column.
#[derive(Clone, Copy, Debug, PartialEq, Eq, Structural)]
pub enum WhereConfigOperator {
    Equal,
    NotEqual,
    LessThan,
    GreaterThan,
    LessThanOrEqual,
    GreaterThanOrEqual,
    IsNull,
    IsNotNull,
    ILike,
    Contains,
    BeginsWith,
    EndsWith,
    DoesNotContain,
    DoesNotBeginWith,
    DoesNotEndWith,
}

impl WhereConfigOperator {
    /// The operator as it is written.
    pub open spec fn symbol(self) -> Seq<char> {
        match self {
            WhereConfigOperator::Equal => "="@,
            WhereConfigOperator::NotEqual => "!="@,
            WhereConfigOperator::LessThan => "<"@,
            WhereConfigOperator::GreaterThan => ">"@,
            WhereConfigOperator::LessThanOrEqual => "<="@,
            WhereConfigOperator::GreaterThanOrEqual => ">="@,
            WhereConfigOperator::IsNull => "is null"@,
            WhereConfigOperator::IsNotNull => "is not null"@,
            WhereConfigOperator::ILike => "ilike"@,
            WhereConfigOperator::Contains => "contains"@,
            WhereConfigOperator::BeginsWith => "begins with"@,
            WhereConfigOperator::EndsWith => "ends with"@,
            WhereConfigOperator::DoesNotContain => "does not contain"@,
            WhereConfigOperator::DoesNotBeginWith => "does not begin with"@,
            WhereConfigOperator::DoesNotEndWith => "does not end with"@,
        }
    }

    /// The operator that a text writes, if it writes one.
    pub open spec fn written_by(text: Seq<char>) -> Option<WhereConfigOperator> {
        if text == "="@ {
            Some(WhereConfigOperator::Equal)
        } else if text == "!="@ {
            Some(WhereConfigOperator::NotEqual)
        } else if text == "<"@ {
            Some(WhereConfigOperator::LessThan)
        } else if text == ">"@ {
            Some(WhereConfigOperator::GreaterThan)
        } else if text == "<="@ {
            Some(WhereConfigOperator::LessThanOrEqual)
        } else if text == ">="@ {
            Some(WhereConfigOperator::GreaterThanOrEqual)
        } else if text == "is null"@ {
            Some(WhereConfigOperator::IsNull)
        } else if text == "is not null"@ {
            Some(WhereConfigOperator::IsNotNull)
        } else if text == "ilike"@ {
            Some(WhereConfigOperator::ILike)
        } else if text == "contains"@ {
            Some(WhereConfigOperator::Contains)
        } else if text == "begins with"@ {
            Some(WhereConfigOperator::BeginsWith)
        } else if text == "ends with"@ {
            Some(WhereConfigOperator::EndsWith)
        } else if text == "does not contain"@ {
            Some(WhereConfigOperator::DoesNotContain)
        } else if text == "does not begin with"@ {
            Some(WhereConfigOperator::DoesNotBeginWith)
        } else if text == "does not end with"@ {
            Some(WhereConfigOperator::DoesNotEndWith)
        } else {
            None
        }
    }

    /// The operator as it is written.
    pub fn as_str(&self) -> (symbol: &'static str)
        ensures
            symbol@ == self.symbol(),
    {
        match self {
            Self::Equal => "=",
            Self::NotEqual => "!=",
            Self::LessThan => "<",
            Self::GreaterThan => ">",
            Self::LessThanOrEqual => "<=",
            Self::GreaterThanOrEqual => ">=",
            Self::IsNull => "is null",
            Self::IsNotNull => "is not null",
            Self::ILike => "ilike",
            Self::Contains => "contains",
            Self::BeginsWith => "begins with",
            Self::EndsWith => "ends with",
            Self::DoesNotContain => "does not contain",
            Self::DoesNotBeginWith => "does not begin with",
            Self::DoesNotEndWith => "does not end with",
        }
    }

    /// Reads an operator; nothing for a text that writes none.
    pub fn from_str(s: &str) -> (operator: Option<WhereConfigOperator>)
        ensures
            operator == Self::written_by(s@),
    {
        if str_eq(s, "=") {
            Some(Self::Equal)
        } else if str_eq(s, "!=") {
            Some(Self::NotEqual)
        } else if str_eq(s, "<") {
            Some(Self::LessThan)
        } else if str_eq(s, ">") {
            Some(Self::GreaterThan)
        } else if str_eq(s, "<=") {
            Some(Self::LessThanOrEqual)
        } else if str_eq(s, ">=") {
            Some(Self::GreaterThanOrEqual)
        } else if str_eq(s, "is null") {
            Some(Self::IsNull)
        } else if str_eq(s, "is not null") {
            Some(Self::IsNotNull)
        } else if str_eq(s, "ilike") {
            Some(Self::ILike)
        } else if str_eq(s, "contains") {
            Some(Self::Contains)
        } else if str_eq(s, "begins with") {
            Some(Self::BeginsWith)
        } else if str_eq(s, "ends with") {
            Some(Self::EndsWith)
        } else if str_eq(s, "does not contain") {
            Some(Self::DoesNotContain)
        } else if str_eq(s, "does not begin with") {
            Some(Self::DoesNotBeginWith)
        } else if str_eq(s, "does not end with") {
            Some(Self::DoesNotEndWith)
        } else {
            None
        }
    }
}

/// Reading back what an operator writes gives the operator.
pub proof fn lemma_operator_read_back(operator: WhereConfigOperator)
    ensures
        WhereConfigOperator::written_by(operator.symbol()) == Some(operator),
{
    reveal_strlit("=");
    reveal_strlit("!=");
    reveal_strlit("<");
    reveal_strlit(">");
    reveal_strlit("<=");
    reveal_strlit(">=");
    reveal_strlit("is null");
    reveal_strlit("is not null");
    reveal_strlit("ilike");
    reveal_strlit("contains");
    reveal_strlit("begins with");
    reveal_strlit("ends with");
    reveal_strlit("does not contain");
    reveal_strlit("does not begin with");
    reveal_strlit("does not end with");
    assert("="@.len() == 1 && "<"@.len() == 1 && ">"@.len() == 1);
    assert("!="@.len() == 2 && "<="@.len() == 2 && ">="@.len() == 2);
    assert("ilike"@.len() == 5 && "is null"@.len() == 7 && "contains"@.len() == 8);
    assert("ends with"@.len() == 9 && "is not null"@.len() == 11 && "begins with"@.len() == 11);
    assert("does not contain"@.len() == 16 && "does not end with"@.len() == 17);
    assert("does not begin with"@.len() == 19);
    assert("="@[0] != "<"@[0] && "="@[0] != ">"@[0] && "<"@[0] != ">"@[0]);
    assert("!="@[0] != "<="@[0] && "!="@[0] != ">="@[0] && "<="@[0] != ">="@[0]);
    assert("is not null"@[0] != "begins with"@[0]);
}

/// Aggregate taken over the rows of the evaluation window.
#[derive(Clone, Copy, Debug, PartialEq, Eq, Structural)]
pub enum AggregateFunction {
    Avg,
    Count,
    Min,
    Max,
    Sum,
}

impl AggregateFunction {
    /// The name of the aggregate.
    pub fn as_str(&self) -> (name: &'static str)
        ensures
            name@ == match *self {
                AggregateFunction::Avg => "Avg"@,
                AggregateFunction::Count => "Count"@,
                AggregateFunction::Min => "Min"@,
                AggregateFunction::Max => "Max"@,
                AggregateFunction::Sum => "Sum"@,
            },
    {
        match self {
            AggregateFunction::Avg => "Avg",
            AggregateFunction::Count => "Count",
            AggregateFunction::Min => "Min",
            AggregateFunction::Max => "Max",
            AggregateFunction::Sum => "Sum",
        }
    }
}

#[derive(Clone, Debug)]
pub struct OperationConfig {
    pub column: String,
    pub operator: Option<String>,
    pub value: Option<String>,
}

#[derive(Clone, Debug)]
pub struct FilterConfig {
    pub conditions: Vec<Conditions>,
}

/// One comparison of a column with a value.
#[derive(Clone, Debug)]
pub struct ConditionConfig {
    pub column: String,
    pub operator: WhereConfigOperator,
    pub value: String,
}

/// How two conditions are joined.
#[derive(Clone, Copy, Debug, PartialEq, Eq, Structural)]
pub enum LogicalOperator {
    And,
    Or,
}

/// One condition, or two joined by a logical operator.
#[derive(Clone, Debug)]
pub struct Conditions {
    pub operator: Option<LogicalOperator>,
    pub condition_config: Vec<ConditionConfig>,
}

impl ConditionConfig {
    /// Column, operator and value, separated by single spaces.
    pub open spec fn text(self) -> Seq<char> {
        self.column@ + " "@ + self.operator.symbol() + " "@ + self.value@
    }

    fn write_to(&self, buffer: &mut String)
        ensures
            final(buffer)@ == old(buffer)@ + self.text(),
    {
        buffer.append(self.column.as_str());
        buffer.append(" ");
        buffer.append(self.operator.as_str());
        buffer.append(" ");
        buffer.append(self.value.as_str());
        proof {
            assert(buffer@ =~= old(buffer)@ + self.text());
        }
    }
}

impl Conditions {
    /// Whether the list holds as many conditions as the operator joins: two
    /// with an operator, one without.
    pub open spec fn well_formed(self) -> bool {
        match self.operator {
            Some(_) => self.condition_config@.len() == 2,
            None => self.condition_config@.len() == 1,
        }
    }

    /// The conditions in brackets; two conditions are joined by ` AND `.
    pub open spec fn filter_message(self) -> Seq<char> {
        match self.operator {
            Some(_) => "["@ + self.condition_config@[0].text() + " AND "@
                + self.condition_config@[1].text() + "]"@,
            None => "["@ + self.condition_config@[0].text() + "]"@,
        }
    }

    /// Writes the conditions out for a notification.
    pub fn generate_filter_message(&self) -> (message: String)
        requires
            self.operator.is_some() ==> self.condition_config@.len() >= 2,
            self.operator.is_none() ==> self.condition_config@.len() >= 1,
        ensures
            message@ == self.filter_message(),
    {
        let mut message = "[".to_owned();
        match &self.operator {
            Some(_) => {
                self.condition_config[0].write_to(&mut message);
                message.append(" AND ");
                self.condition_config[1].write_to(&mut message);
            },
            None => {
                self.condition_config[0].write_to(&mut message);
            },
        }
        message.append("]");
        message
    }
}

#[derive(Clone, Debug)]
pub struct GroupBy {
    pub columns: Vec<String>,
}

/// One aggregate compared with a threshold.
#[derive(Clone, Debug)]
pub struct AggregateConfig {
    pub aggregate_function: AggregateFunction,
    pub conditions: Option<Conditions>,
    pub group_by: Option<GroupBy>,
    pub column: String,
    pub operator: AlertOperator,
    /// The threshold, as the bits of a binary64 number. It is carried along
    /// and never computed with here.
    pub value_bits: u64,
}

/// One aggregate, or two joined by a logical operator.
#[derive(Clone, Debug)]
pub struct Aggregates {
    pub operator: Option<LogicalOperator>,
    pub aggregate_config: Vec<AggregateConfig>,
}

/// The window of an evaluation: from `eval_start` ago until `eval_end`,
/// every `eval_frequency` minutes.
#[derive(Clone, Debug)]
pub struct RollingWindow {
    pub eval_start: String,
    pub eval_end: String,
    pub eval_frequency: u64,
}

#[derive(Clone, Debug)]
pub enum EvalConfig {
    RollingWindow(RollingWindow),
}

#[derive(Clone, Copy, Debug, PartialEq, Eq, Structural)]
pub struct AlertEval {}

/// State of an alert.
#[derive(Clone, Copy, Debug, PartialEq, Eq, Structural)]
pub enum AlertState {
    Triggered,
    Silenced,
    Resolved,
}

impl Default for AlertState {
    fn default() -> (state: AlertState)
        ensures
            state == AlertState::Resolved,
    {
        AlertState::Resolved
    }
}

impl AlertState {
    /// The name of the state.
    pub fn as_str(&self) -> (name: &'static str)
        ensures
            name@ == match *self {
                AlertState::Triggered => "Triggered"@,
                AlertState::Silenced => "Silenced"@,
                AlertState::Resolved => "Resolved"@,
            },
    {
        match self {
            AlertState::Triggered => "Triggered",
            AlertState::Silenced => "Silenced",
            AlertState::Resolved => "Resolved",
        }
    }
}

#[derive(Clone, Copy, Debug, PartialEq, Eq, Structural)]
pub enum Severity {
    Critical,
    High,
    Medium,
    Low,
}

impl Default for Severity {
    fn default() -> (severity: Severity)
        ensures
            severity == Severity::Medium,
    {
        Severity::Medium
    }
}

impl Severity {
    /// The severity as it is written, with its priority class.
    pub open spec fn name(self) -> Seq<char> {
        match self {
            Severity::Critical => "Critical (P0)"@,
            Severity::High => "High (P1)"@,
            Severity::Medium => "Medium (P2)"@,
            Severity::Low => "Low (P3)"@,
        }
    }

    /// The severity with its priority class.
    pub fn as_str(&self) -> (name: &'static str)
        ensures
            name@ == self.name(),
    {
        match self {
            Severity::Critical => "Critical (P0)",
            Severity::High => "High (P1)",
            Severity::Medium => "Medium (P2)",
            Severity::Low => "Low (P3)",
        }
    }
}

/// How often a notification is repeated.
#[derive(Clone, Copy, Debug, PartialEq, Eq, Structural)]
pub enum Retry {
    Infinite,
    Finite(usize),
}

impl Retry {
    /// Whether another notification may follow after `sent` of them.
    pub fn allows(&self, sent: usize) -> (more: bool)
        ensures
            more == match *self {
                Retry::Infinite => true,
                Retry::Finite(times) => sent < times,
            },
    {
        match self {
            Retry::Infinite => true,
            Retry::Finite(times) => sent < *times,
        }
    }
}

/// The retry policy of a target: a fixed interval, in nanoseconds, and the
/// number of repetitions.
#[derive(Clone, Copy, Debug, PartialEq, Eq, Structural)]
pub struct Timeout {
    pub interval_nanos: u128,
    pub times: Retry,
}

/// Kind of a notification target.
#[derive(Clone, Copy, Debug, PartialEq, Eq, Structural)]
pub enum TargetKind {
    Webhook,
    Slack,
    AlertManager,
    Email,
}

/// Where notifications of an alert go, with the target's own retry policy.
#[derive(Clone, Debug)]
pub struct Target {
    pub kind: TargetKind,
    pub endpoint: String,
    pub timeout: Timeout,
}

/// What a client sends to create or change an alert.
#[derive(Clone, Debug)]
pub struct AlertRequest {
    pub severity: Severity,
    pub title: String,
    pub stream: String,
    pub alert_type: AlertType,
    pub aggregates: Aggregates,
    pub eval_config: EvalConfig,
    pub targets: Vec<Target>,
}

/// A scheduled check on a stream. The identifier is a 128-bit ULID.
#[derive(Clone, Debug)]
pub struct AlertConfig {
    pub version: AlertVerison,
    pub id: u128,
    pub severity: Severity,
    pub title: String,
    pub stream: String,
    pub alert_type: AlertType,
    pub aggregates: Aggregates,
    pub eval_config: EvalConfig,
    pub targets: Vec<Target>,
    pub state: AlertState,
}

impl AlertConfig {
    /// The alert that a request asks for, under the identifier `id`. A new
    /// alert starts out resolved.
    pub fn from_request(id: u128, val: AlertRequest) -> (alert: AlertConfig)
        ensures
            alert.version == AlertVerison::V1,
            alert.id == id,
            alert.severity == val.severity,
            alert.title == val.title,
            alert.stream == val.stream,
            alert.alert_type == val.alert_type,
            alert.aggregates == val.aggregates,
            alert.eval_config == val.eval_config,
            alert.targets == val.targets,
            alert.state == AlertState::Resolved,
    {
        AlertConfig {
            version: AlertVerison::from(CURRENT_ALERTS_VERSION),
            id,
            severity: val.severity,
            title: val.title,
            stream: val.stream,
            alert_type: val.alert_type,
            aggregates: val.aggregates,
            eval_config: val.eval_config,
            targets: val.targets,
            state: AlertState::default(),
        }
    }

    /// Takes over what a request asks for. Version, identifier and severity
    /// stay; the state goes back to resolved.
    pub fn modify(&mut self, alert: AlertRequest)
        ensures
            final(self).version == old(self).version,
            final(self).id == old(self).id,
            final(self).severity == old(self).severity,
            final(self).title == alert.title,
            final(self).stream == alert.stream,
            final(self).alert_type == alert.alert_type,
            final(self).aggregates == alert.aggregates,
            final(self).eval_config == alert.eval_config,
            final(self).targets == alert.targets,
            final(self).state == AlertState::Resolved,
    {
        self.title = alert.title;
        self.stream = alert.stream;
        self.alert_type = alert.alert_type;
        self.aggregates = alert.aggregates;
        self.eval_config = alert.eval_config;
        self.targets = alert.targets;
        self.state = AlertState::default();
    }

    /// The query that selects every row of the alert's stream.
    pub fn select_query(&self) -> (query: String)
        ensures
            query@ == "SELECT * FROM "@ + self.stream@,
    {
        let mut query = "SELECT * FROM ".to_owned();
        query.append(self.stream.as_str());
        query
    }

    /// Minutes between two evaluations.
    pub fn get_eval_frequency(&self) -> (minutes: u64)
        ensures
            minutes == match self.eval_config {
                EvalConfig::RollingWindow(window) => window.eval_frequency,
            },
    {
        match &self.eval_config {
            EvalConfig::RollingWindow(rolling_window) => rolling_window.eval_frequency,
        }
    }
}

} // verus!
