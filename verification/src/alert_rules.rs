//! The rules that an alert must meet before it is stored.

use vstd::prelude::*;
use vstd::hash_set::StringHashSet;
use crate::alerts::AggregateConfig;
use crate::alerts::Aggregates;
use crate::alerts::AlertConfig;
use crate::alerts::Conditions;
use crate::alerts::EvalConfig;
use crate::alerts::Retry;
use crate::alerts::Target;
use crate::status::BAD_REQUEST;
use crate::status::INTERNAL_SERVER_ERROR;
use crate::status::NOT_FOUND;
use crate::text::lemma_filter_prefix_step;

verus! {

/// Nanoseconds in a minute.
pub const NANOS_PER_MINUTE: u128 = 60_000_000_000;

/// Why an operation on alerts failed. A variant that reports a failure from
/// outside carries the text of that failure.
#[derive(Debug)]
pub enum AlertError {
    ObjectStorage(String),
    Serde(String),
    Metadata(&'static str),
    Unauthorized,
    Error(String),
    DatafusionError(String),
    CustomError(String),
    InvalidStateChange(String),
    StreamNotFound(String),
    Anyhow(String),
}

impl AlertError {
    /// The status with which the failure is reported to a client.
    pub fn status_code(&self) -> (status: u16)
        ensures
            status == match *self {
                AlertError::ObjectStorage(_) => INTERNAL_SERVER_ERROR,
                AlertError::Serde(_) => BAD_REQUEST,
                AlertError::Metadata(_) => BAD_REQUEST,
                AlertError::Unauthorized => BAD_REQUEST,
                AlertError::Error(_) => INTERNAL_SERVER_ERROR,
                AlertError::DatafusionError(_) => INTERNAL_SERVER_ERROR,
                AlertError::CustomError(_) => BAD_REQUEST,
                AlertError::InvalidStateChange(_) => BAD_REQUEST,
                AlertError::StreamNotFound(_) => NOT_FOUND,
                AlertError::Anyhow(_) => INTERNAL_SERVER_ERROR,
            },
    {
        match self {
            Self::ObjectStorage(_) => INTERNAL_SERVER_ERROR,
            Self::Serde(_) => BAD_REQUEST,
            Self::Metadata(_) => BAD_REQUEST,
            Self::Unauthorized => BAD_REQUEST,
            Self::Error(_) => INTERNAL_SERVER_ERROR,
            Self::DatafusionError(_) => INTERNAL_SERVER_ERROR,
            Self::CustomError(_) => BAD_REQUEST,
            Self::InvalidStateChange(_) => BAD_REQUEST,
            Self::StreamNotFound(_) => NOT_FOUND,
            Self::Anyhow(_) => INTERNAL_SERVER_ERROR,
        }
    }
}

/// The most decimal digits that a text may hold to be read as a duration.
pub const MAX_DURATION_DIGITS: usize = 11;

/// Whether a character is one of `0` to `9`.
pub open spec fn is_decimal_digit(c: char) -> bool {
    '0' <= c <= '9'
}

/// How many decimal digits a text holds.
pub open spec fn digit_count(text: Seq<char>) -> nat {
    text.filter(|c: char| is_decimal_digit(c)).len()
}

/// Counts the decimal digits of a text.
pub fn count_digits(text: &str) -> (count: usize)
    ensures
        count == digit_count(text@),
{
    let ghost digit = |c: char| is_decimal_digit(c);
    let n = text.unicode_len();
    let mut count: usize = 0;
    let mut i: usize = 0;
    while i < n
        invariant
            i <= n,
            n == text@.len(),
            count <= i,
            digit == (|c: char| is_decimal_digit(c)),
            count == text@.subrange(0, i as int).filter(digit).len(),
        decreases n - i,
    {
        proof {
            lemma_filter_prefix_step(text@, i as int, digit);
        }
        let c = text.get_char(i);
        if '0' <= c && c <= '9' {
            count += 1;
        }
        i += 1;
    }
    proof {
        assert(text@.subrange(0, i as int) =~= text@);
    }
    count
}

/// The length in nanoseconds of the duration that a text writes in the
/// notation of the `humantime` crate, such as `25m` or `1hour 12min 5s`;
/// nothing for a text that writes none.
pub uninterp spec fn humantime_nanos(text: Seq<char>) -> Option<u128>;

/// Calls `humantime::parse_duration` and takes `as_nanos` of the duration it
/// gives. The contract claims only that the outcome is determined by the
/// text. Texts with more than eleven digits are left out: the parser adds up
/// seconds with checked arithmetic but builds its result with
/// `Duration::new`, which fails when the seconds are `u64::MAX` and a full
/// second of nanoseconds is carried. A number of the text, with its
/// fraction and what its nanoseconds carry, adds less than that number plus
/// three of the longest unit, the year of 31 557 600 seconds; the numbers of
/// a text with eleven digits or fewer add up to less than 10^11, and there
/// are at most eleven of them, so the seconds stay below 3.2 * 10^18.
#[verifier::external_body]
fn parse_duration_nanos(text: &str) -> (length: Option<u128>)
    requires
        digit_count(text@) <= MAX_DURATION_DIGITS,
    ensures
        length == humantime_nanos(text@),
{
    match humantime::parse_duration(text) {
        Ok(duration) => Some(duration.as_nanos()),
        Err(_) => None,
    }
}

/// The length in nanoseconds of the window that a text states: that of the
/// duration it writes, and nothing for a text that writes no duration or
/// holds more than `MAX_DURATION_DIGITS` digits.
pub open spec fn window_length(text: Seq<char>) -> Option<u128> {
    if digit_count(text) <= MAX_DURATION_DIGITS {
        humantime_nanos(text)
    } else {
        None
    }
}

/// Reads the length of a window. A text with more than
/// `MAX_DURATION_DIGITS` digits is not read.
pub fn read_window_length(text: &str) -> (length: Option<u128>)
    ensures
        length == window_length(text@),
{
    if count_digits(text) > MAX_DURATION_DIGITS {
        return None;
    }
    parse_duration_nanos(text)
}

/// Nanoseconds in a millisecond.
pub const NANOS_PER_MILLI: u128 = 1_000_000;

/// The whole milliseconds of a window, as far as 64 bits hold them; zero
/// for a window without length.
pub open spec fn whole_millis(length: Option<u128>) -> u64 {
    match length {
        Some(nanos) => if nanos / NANOS_PER_MILLI <= u64::MAX {
            (nanos / NANOS_PER_MILLI) as u64
        } else {
            u64::MAX
        },
        None => 0,
    }
}

/// Takes the whole milliseconds of a window.
pub fn window_millis_of(length: Option<u128>) -> (millis: u64)
    ensures
        millis == whole_millis(length),
{
    match length {
        Some(nanos) => {
            let millis: u128 = nanos / NANOS_PER_MILLI;
            if millis <= u64::MAX as u128 {
                millis as u64
            } else {
                u64::MAX
            }
        },
        None => 0,
    }
}

/// What is wrong with the number of aggregates or conditions of an alert.
#[derive(Clone, Copy, Debug, PartialEq, Eq, Structural)]
pub enum ConfigFault {
    /// A logical operator without exactly two aggregates.
    AggregatesJoined,
    /// No logical operator and not exactly one aggregate.
    AggregatesSingle,
    /// A logical operator without exactly two conditions.
    ConditionsJoined,
    /// No logical operator and not exactly one condition.
    ConditionsSingle,
}

/// What is wrong with an alert.
#[derive(Clone, Copy, Debug, PartialEq, Eq, Structural)]
pub enum AlertFault {
    /// The start of the window is no duration.
    EvalStart,
    /// A target repeats its notification for longer than one evaluation
    /// period.
    TargetRepeat,
    Config(ConfigFault),
}

impl ConfigFault {
    /// The message with which the fault is reported.
    pub open spec fn message(self) -> Seq<char> {
        match self {
            ConfigFault::AggregatesJoined => "While using AND/OR, two aggregateConditions must be used"@,
            ConfigFault::AggregatesSingle => "While not using AND/OR, one aggregateConditions must be used"@,
            ConfigFault::ConditionsJoined => "While using AND/OR, two conditions must be used"@,
            ConfigFault::ConditionsSingle => "While not using AND/OR, one conditions must be used"@,
        }
    }
}

impl AlertFault {
    /// Whether `error` is the error that reports this fault.
    pub open spec fn reported_by(self, error: AlertError) -> bool {
        match self {
            AlertFault::EvalStart => error matches AlertError::Metadata(text) && text@
                == "evalStart should be of type humantime"@,
            AlertFault::TargetRepeat => error matches AlertError::Metadata(text) && text@
                == "evalFrequency should be greater than target repetition  interval"@,
            AlertFault::Config(fault) => error matches AlertError::CustomError(text) && text@
                == fault.message(),
        }
    }
}

/// Whether `outcome` is the verdict on an alert with the given fault: success
/// without a fault, and otherwise the error that reports the fault.
pub open spec fn is_verdict(outcome: Result<(), AlertError>, fault: Option<AlertFault>) -> bool {
    match fault {
        None => outcome.is_ok(),
        Some(found) => outcome matches Err(error) && found.reported_by(error),
    }
}

/// The fault in an optional list of conditions.
pub open spec fn conditions_fault(conditions: Option<Conditions>) -> Option<ConfigFault> {
    match conditions {
        None => None,
        Some(list) => match list.operator {
            Some(_) => if list.condition_config@.len() != 2 {
                Some(ConfigFault::ConditionsJoined)
            } else {
                None
            },
            None => if list.condition_config@.len() != 1 {
                Some(ConfigFault::ConditionsSingle)
            } else {
                None
            },
        },
    }
}

/// The first fault in the aggregates of an alert: a logical operator joins
/// exactly two aggregates, and without one there is exactly one; the
/// conditions of each aggregate follow the same rule.
pub open spec fn aggregates_fault(aggregates: Aggregates) -> Option<ConfigFault> {
    let list = aggregates.aggregate_config@;
    match aggregates.operator {
        Some(_) => if list.len() != 2 {
            Some(ConfigFault::AggregatesJoined)
        } else if conditions_fault(list[0].conditions).is_some() {
            conditions_fault(list[0].conditions)
        } else {
            conditions_fault(list[1].conditions)
        },
        None => if list.len() != 1 {
            Some(ConfigFault::AggregatesSingle)
        } else {
            conditions_fault(list[0].conditions)
        },
    }
}

fn check_conditions(conditions: &Option<Conditions>) -> (fault: Option<ConfigFault>)
    ensures
        fault == conditions_fault(*conditions),
{
    match conditions {
        None => None,
        Some(list) => match &list.operator {
            Some(_) => if list.condition_config.len() != 2 {
                Some(ConfigFault::ConditionsJoined)
            } else {
                None
            },
            None => if list.condition_config.len() != 1 {
                Some(ConfigFault::ConditionsSingle)
            } else {
                None
            },
        },
    }
}

fn check_aggregates(aggregates: &Aggregates) -> (fault: Option<ConfigFault>)
    ensures
        fault == aggregates_fault(*aggregates),
{
    match &aggregates.operator {
        Some(_) => {
            if aggregates.aggregate_config.len() != 2 {
                return Some(ConfigFault::AggregatesJoined);
            }
            let first = check_conditions(&aggregates.aggregate_config[0].conditions);
            if first.is_some() {
                return first;
            }
            check_conditions(&aggregates.aggregate_config[1].conditions)
        },
        None => {
            if aggregates.aggregate_config.len() != 1 {
                return Some(ConfigFault::AggregatesSingle);
            }
            check_conditions(&aggregates.aggregate_config[0].conditions)
        },
    }
}

fn config_error(fault: ConfigFault) -> (error: AlertError)
    ensures
        AlertFault::Config(fault).reported_by(error),
{
    let text = match fault {
        ConfigFault::AggregatesJoined => "While using AND/OR, two aggregateConditions must be used",
        ConfigFault::AggregatesSingle => "While not using AND/OR, one aggregateConditions must be used",
        ConfigFault::ConditionsJoined => "While using AND/OR, two conditions must be used",
        ConfigFault::ConditionsSingle => "While not using AND/OR, one conditions must be used",
    };
    AlertError::CustomError(text.to_owned())
}

impl Target {
    /// Whether all repetitions of a notification fit into one evaluation
    /// period of `eval_frequency` minutes. A target that repeats without end
    /// is not held to the period.
    pub open spec fn fits(self, eval_frequency: u64) -> bool {
        match self.timeout.times {
            Retry::Infinite => true,
            Retry::Finite(repeat) => self.timeout.interval_nanos * repeat <= eval_frequency
                * NANOS_PER_MINUTE,
        }
    }

    /// Decides whether the target's repetitions fit into one evaluation
    /// period.
    pub fn fits_frequency(&self, eval_frequency: u64) -> (fitting: bool)
        ensures
            fitting == self.fits(eval_frequency),
    {
        match self.timeout.times {
            Retry::Infinite => true,
            Retry::Finite(repeat) => {
                let period: u128 = (eval_frequency as u128) * NANOS_PER_MINUTE;
                match self.timeout.interval_nanos.checked_mul(repeat as u128) {
                    Some(total) => total <= period,
                    None => false,
                }
            },
        }
    }
}

/// Whether every target fits into the evaluation period.
pub open spec fn targets_fit(targets: Seq<Target>, eval_frequency: u64) -> bool {
    forall|i: int| 0 <= i < targets.len() ==> (#[trigger] targets[i]).fits(eval_frequency)
}

impl AlertConfig {
    /// The text that states where the evaluation window starts.
    pub open spec fn eval_start(self) -> Seq<char> {
        match self.eval_config {
            EvalConfig::RollingWindow(window) => window.eval_start@,
        }
    }

    /// Minutes between two evaluations.
    pub open spec fn eval_frequency(self) -> u64 {
        match self.eval_config {
            EvalConfig::RollingWindow(window) => window.eval_frequency,
        }
    }

    /// The first fault of the alert, given whether the start of its window
    /// is a duration: the start of the window is looked at first, then the
    /// targets, then the aggregates and their conditions.
    pub open spec fn fault(self, eval_start_parses: bool) -> Option<AlertFault> {
        if !eval_start_parses {
            Some(AlertFault::EvalStart)
        } else if !targets_fit(self.targets@, self.eval_frequency()) {
            Some(AlertFault::TargetRepeat)
        } else {
            match aggregates_fault(self.aggregates) {
                Some(fault) => Some(AlertFault::Config(fault)),
                None => None,
            }
        }
    }

    /// Checks the number of aggregates and conditions.
    pub fn validate_configs(&self) -> (outcome: Result<(), AlertError>)
        ensures
            match aggregates_fault(self.aggregates) {
                Some(fault) => outcome matches Err(error) && AlertFault::Config(fault).reported_by(
                    error,
                ),
                None => outcome.is_ok(),
            },
    {
        match check_aggregates(&self.aggregates) {
            Some(fault) => Err(config_error(fault)),
            None => Ok(()),
        }
    }

    /// Checks the alert, given whether the start of its window is a
    /// duration.
    pub fn validate_with(&self, eval_start_parses: bool) -> (outcome: Result<(), AlertError>)
        ensures
            is_verdict(outcome, self.fault(eval_start_parses)),
    {
        if !eval_start_parses {
            return Err(AlertError::Metadata("evalStart should be of type humantime"));
        }
        let eval_frequency = self.get_eval_frequency();
        let mut i: usize = 0;
        while i < self.targets.len()
            invariant
                i <= self.targets.len(),
                eval_start_parses,
                eval_frequency == self.eval_frequency(),
                forall|j: int| 0 <= j < i ==> (#[trigger] self.targets@[j]).fits(eval_frequency),
            decreases self.targets.len() - i,
        {
            if !self.targets[i].fits_frequency(eval_frequency) {
                proof {
                    assert(!self.targets@[i as int].fits(self.eval_frequency()));
                }
                return Err(
                    AlertError::Metadata(
                        "evalFrequency should be greater than target repetition  interval",
                    ),
                );
            }
            i += 1;
        }
        self.validate_configs()
    }

    /// Checks the alert before it is stored: the start of its window must be
    /// a duration written with at most `MAX_DURATION_DIGITS` digits, no
    /// target may repeat for longer than one evaluation period, and the
    /// aggregates and conditions must be as many as their operators join.
    pub fn validate(&self) -> (outcome: Result<(), AlertError>)
        ensures
            is_verdict(outcome, self.fault(window_length(self.eval_start()).is_some())),
    {
        let length = match &self.eval_config {
            EvalConfig::RollingWindow(rolling_window) => read_window_length(
                rolling_window.eval_start.as_str(),
            ),
        };
        self.validate_with(length.is_some())
    }

    /// The length of the evaluation window in milliseconds; zero where the
    /// start of the window is not read as a duration.
    pub fn window_millis(&self) -> (millis: u64)
        ensures
            millis == whole_millis(window_length(self.eval_start())),
    {
        let length = match &self.eval_config {
            EvalConfig::RollingWindow(rolling_window) => read_window_length(
                rolling_window.eval_start.as_str(),
            ),
        };
        window_millis_of(length)
    }
}

/// The columns that a list of conditions names.
pub open spec fn condition_columns(conditions: Conditions) -> Set<Seq<char>> {
    match conditions.operator {
        Some(_) => set![
            conditions.condition_config@[0].column@,
            conditions.condition_config@[1].column@,
        ],
        None => set![conditions.condition_config@[0].column@],
    }
}

/// The columns that the conditions of an aggregate name.
pub open spec fn aggregate_condition_columns(aggregate: AggregateConfig) -> Set<Seq<char>> {
    match aggregate.conditions {
        Some(conditions) => condition_columns(conditions),
        None => Set::empty(),
    }
}

/// The columns that an alert reads: those of its aggregates and those of the
/// conditions of its first aggregate.
pub open spec fn aggregate_columns(aggregates: Aggregates) -> Set<Seq<char>> {
    let list = aggregates.aggregate_config@;
    match aggregates.operator {
        Some(_) => set![list[0].column@, list[1].column@].union(
            aggregate_condition_columns(list[0]),
        ),
        None => set![list[0].column@].union(aggregate_condition_columns(list[0])),
    }
}

fn add_condition_cols(columns: &mut StringHashSet, condition: &Conditions)
    requires
        condition.well_formed(),
    ensures
        final(columns)@ == old(columns)@.union(condition_columns(*condition)),
{
    match &condition.operator {
        Some(_) => {
            columns.insert(condition.condition_config[0].column.clone());
            columns.insert(condition.condition_config[1].column.clone());
        },
        None => {
            columns.insert(condition.condition_config[0].column.clone());
        },
    }
    proof {
        assert(columns@ =~= old(columns)@.union(condition_columns(*condition)));
    }
}

impl AlertConfig {
    /// The set of columns that the alert reads, for an alert whose
    /// aggregates and conditions are as many as their operators join.
    pub fn get_agg_config_cols(&self) -> (columns: StringHashSet)
        requires
            aggregates_fault(self.aggregates).is_none(),
        ensures
            columns@ == aggregate_columns(self.aggregates),
    {
        let mut columns = StringHashSet::new();
        let first = &self.aggregates.aggregate_config[0];
        columns.insert(first.column.clone());
        match &self.aggregates.operator {
            Some(_) => {
                columns.insert(self.aggregates.aggregate_config[1].column.clone());
            },
            None => {},
        }
        match &first.conditions {
            Some(condition) => {
                add_condition_cols(&mut columns, condition);
            },
            None => {},
        }
        proof {
            assert(columns@ =~= aggregate_columns(self.aggregates));
        }
        columns
    }
}

} // verus!
