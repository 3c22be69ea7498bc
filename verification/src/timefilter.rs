//! Time bounds of a query and the predicates built from them.

use vstd::prelude::*;
use crate::text::str_eq;
use crate::text::opt_view;

verus! {

/// Name of the column that holds the ingestion timestamp of every stream.
pub const DEFAULT_TIMESTAMP_KEY: &'static str = "p_timestamp";

/// A half-open interval of time `[start, end)`.
#[derive(Clone, Copy, Debug, PartialEq, Eq, Structural)]
pub struct TimeRange {
    pub start: i64,
    pub end: i64,
}

/// One end of an interval.
#[derive(Clone, Copy, Debug, PartialEq, Eq, Structural)]
pub enum TimeBound {
    Included(i64),
    Excluded(i64),
    Unbounded,
}

/// A constraint on the time column taken from one predicate of a query.
#[derive(Clone, Copy, Debug, PartialEq, Eq, Structural)]
pub enum PartialTimeFilter {
    Low(TimeBound),
    High(TimeBound),
    Eq(i64),
}

/// Comparison operator of a predicate on a column.
#[derive(Clone, Copy, Debug, PartialEq, Eq, Structural)]
pub enum CompareOp {
    Gt,
    GtEq,
    Lt,
    LtEq,
    Eq,
    NotEq,
}

/// A predicate `table.column <op> timestamp`, the form in which time bounds
/// are handed to the query engine.
#[derive(Debug)]
pub struct TimeFilterExpr {
    pub table: String,
    pub column: String,
    pub op: CompareOp,
    pub millis: i64,
}

impl PartialTimeFilter {
    /// Whether the instant `t` satisfies the filter.
    pub open spec fn admits(self, t: int) -> bool {
        match self {
            PartialTimeFilter::Low(TimeBound::Included(b)) => t >= b,
            PartialTimeFilter::Low(TimeBound::Excluded(b)) => t > b,
            PartialTimeFilter::High(TimeBound::Included(b)) => t <= b,
            PartialTimeFilter::High(TimeBound::Excluded(b)) => t < b,
            PartialTimeFilter::Eq(b) => t == b,
            _ => true,
        }
    }

    /// The pruning rule on a pair of bounds: a range is kept unless its upper
    /// bound lies before a lower limit or its lower bound lies at or after an
    /// upper limit.
    pub open spec fn touches(self, lower: int, upper: int) -> bool {
        match self {
            PartialTimeFilter::Low(TimeBound::Included(b)) => upper >= b,
            PartialTimeFilter::Low(TimeBound::Excluded(b)) => upper > b,
            PartialTimeFilter::High(TimeBound::Included(b)) => lower <= b,
            PartialTimeFilter::High(TimeBound::Excluded(b)) => lower < b,
            PartialTimeFilter::Eq(b) => lower <= b <= upper,
            _ => true,
        }
    }

    /// The operator and timestamp of the predicate that states this filter,
    /// where it has one.
    pub open spec fn operator(self) -> Option<(CompareOp, i64)> {
        match self {
            PartialTimeFilter::Low(TimeBound::Excluded(b)) => Some((CompareOp::Gt, b)),
            PartialTimeFilter::Low(TimeBound::Included(b)) => Some((CompareOp::GtEq, b)),
            PartialTimeFilter::High(TimeBound::Excluded(b)) => Some((CompareOp::Lt, b)),
            PartialTimeFilter::High(TimeBound::Included(b)) => Some((CompareOp::LtEq, b)),
            PartialTimeFilter::Eq(b) => Some((CompareOp::Eq, b)),
            _ => None,
        }
    }

    /// The filter that a predicate with operator `op` and timestamp `millis`
    /// states, where it states one.
    pub open spec fn of_operator(op: CompareOp, millis: i64) -> Option<PartialTimeFilter> {
        match op {
            CompareOp::Gt => Some(PartialTimeFilter::Low(TimeBound::Excluded(millis))),
            CompareOp::GtEq => Some(PartialTimeFilter::Low(TimeBound::Included(millis))),
            CompareOp::Lt => Some(PartialTimeFilter::High(TimeBound::Excluded(millis))),
            CompareOp::LtEq => Some(PartialTimeFilter::High(TimeBound::Included(millis))),
            CompareOp::Eq => Some(PartialTimeFilter::Eq(millis)),
            CompareOp::NotEq => None,
        }
    }

    /// Decides whether a range with the given bounds can hold a matching row.
    pub fn keeps_range(&self, lower: i64, upper: i64) -> (kept: bool)
        ensures
            kept == self.touches(lower as int, upper as int),
    {
        match self {
            PartialTimeFilter::Low(TimeBound::Included(b)) => upper >= *b,
            PartialTimeFilter::Low(TimeBound::Excluded(b)) => upper > *b,
            PartialTimeFilter::High(TimeBound::Included(b)) => lower <= *b,
            PartialTimeFilter::High(TimeBound::Excluded(b)) => lower < *b,
            PartialTimeFilter::Eq(b) => lower <= *b && *b <= upper,
            _ => true,
        }
    }

    /// Builds the predicate on `table.column` that states this filter. An
    /// unbounded filter states nothing and has no predicate.
    pub fn binary_expr(&self, table: String, column: String) -> (expr: Option<TimeFilterExpr>)
        ensures
            match self.operator() {
                Some((op, millis)) => expr == Some(
                    (TimeFilterExpr { table, column, op, millis }),
                ),
                None => expr.is_none(),
            },
    {
        let (op, millis): (CompareOp, i64) = match self {
            PartialTimeFilter::Low(TimeBound::Excluded(b)) => (CompareOp::Gt, *b),
            PartialTimeFilter::Low(TimeBound::Included(b)) => (CompareOp::GtEq, *b),
            PartialTimeFilter::High(TimeBound::Excluded(b)) => (CompareOp::Lt, *b),
            PartialTimeFilter::High(TimeBound::Included(b)) => (CompareOp::LtEq, *b),
            PartialTimeFilter::Eq(b) => (CompareOp::Eq, *b),
            _ => { return None; },
        };
        Some(TimeFilterExpr { table, column, op, millis })
    }
}

/// On a range whose bounds are in order, the pruning rule keeps the range
/// exactly when some instant of it satisfies the filter: a range is dropped
/// only if it lies fully outside the filter, never when it straddles a limit.
pub proof fn lemma_touches_iff_some_instant_admitted(
    filter: PartialTimeFilter,
    lower: int,
    upper: int,
)
    requires
        lower <= upper,
    ensures
        filter.touches(lower, upper) <==> exists|t: int|
            lower <= t <= upper && #[trigger] filter.admits(t),
{
    if filter.touches(lower, upper) {
        match filter {
            PartialTimeFilter::Low(_) => {
                assert(lower <= upper <= upper && filter.admits(upper));
            },
            PartialTimeFilter::High(_) => {
                assert(lower <= lower <= upper && filter.admits(lower));
            },
            PartialTimeFilter::Eq(b) => {
                assert(lower <= b <= upper && filter.admits(b as int));
            },
        }
    }
}

/// Whether a predicate on `column` constrains the time of a stream whose
/// time-partition column is `time_partition`.
pub open spec fn is_time_column(column: Seq<char>, time_partition: Option<Seq<char>>) -> bool {
    column == DEFAULT_TIMESTAMP_KEY@ || time_partition == Some(column)
}

impl TimeFilterExpr {
    /// The time filter that this predicate states, if it is a comparison on
    /// the stream's time column.
    pub open spec fn time_filter(self, time_partition: Option<Seq<char>>) -> Option<
        PartialTimeFilter,
    > {
        if is_time_column(self.column@, time_partition) {
            PartialTimeFilter::of_operator(self.op, self.millis)
        } else {
            None
        }
    }

    /// Reads the time filter off this predicate.
    pub fn try_time_filter(&self, time_partition: &Option<String>) -> (filter: Option<
        PartialTimeFilter,
    >)
        ensures
            filter == self.time_filter(opt_view(*time_partition)),
    {
        let on_partition = match time_partition {
            Some(name) => str_eq(name.as_str(), self.column.as_str()),
            None => false,
        };
        if !on_partition && !str_eq(self.column.as_str(), DEFAULT_TIMESTAMP_KEY) {
            return None;
        }
        match self.op {
            CompareOp::Gt => Some(PartialTimeFilter::Low(TimeBound::Excluded(self.millis))),
            CompareOp::GtEq => Some(PartialTimeFilter::Low(TimeBound::Included(self.millis))),
            CompareOp::Lt => Some(PartialTimeFilter::High(TimeBound::Excluded(self.millis))),
            CompareOp::LtEq => Some(PartialTimeFilter::High(TimeBound::Included(self.millis))),
            CompareOp::Eq => Some(PartialTimeFilter::Eq(self.millis)),
            CompareOp::NotEq => None,
        }
    }
}

/// The time filters stated by a list of predicates, in the order of the
/// predicates; those that state none are passed over.
pub open spec fn primary_filters(
    exprs: Seq<TimeFilterExpr>,
    time_partition: Option<Seq<char>>,
) -> Seq<PartialTimeFilter>
    decreases exprs.len(),
{
    if exprs.len() == 0 {
        Seq::empty()
    } else {
        let before = primary_filters(exprs.drop_last(), time_partition);
        match exprs.last().time_filter(time_partition) {
            Some(filter) => before.push(filter),
            None => before,
        }
    }
}

/// Collects the time filters that a list of predicates states.
pub fn extract_primary_filter(exprs: &Vec<TimeFilterExpr>, time_partition: &Option<String>) -> (filters:
    Vec<PartialTimeFilter>)
    ensures
        filters@ == primary_filters(exprs@, opt_view(*time_partition)),
{
    let mut filters: Vec<PartialTimeFilter> = Vec::new();
    let mut i: usize = 0;
    while i < exprs.len()
        invariant
            i <= exprs.len(),
            filters@ == primary_filters(exprs@.subrange(0, i as int), opt_view(*time_partition)),
        decreases exprs.len() - i,
    {
        proof {
            assert(exprs@.subrange(0, i + 1).drop_last() =~= exprs@.subrange(0, i as int));
        }
        if let Some(filter) = exprs[i].try_time_filter(time_partition) {
            filters.push(filter);
        }
        i += 1;
    }
    proof {
        assert(exprs@.subrange(0, i as int) =~= exprs@);
    }
    filters
}

/// The column that time bounds are stated on: the stream's time-partition
/// column where it has one, the ingestion timestamp otherwise.
pub open spec fn time_column(time_partition: Option<Seq<char>>) -> Seq<char> {
    match time_partition {
        Some(name) => name,
        None => DEFAULT_TIMESTAMP_KEY@,
    }
}

/// Builds the two predicates that restrict `table_name` to `time_range`:
/// first `column >= start`, then `column < end`.
pub fn create_time_filter(
    time_range: &TimeRange,
    time_partition: Option<String>,
    table_name: &str,
) -> (exprs: Vec<TimeFilterExpr>)
    ensures
        exprs@.len() == 2,
        exprs@[0].table@ == table_name@,
        exprs@[0].column@ == time_column(opt_view(time_partition)),
        exprs@[0].op == CompareOp::GtEq,
        exprs@[0].millis == time_range.start,
        exprs@[1].table@ == table_name@,
        exprs@[1].column@ == time_column(opt_view(time_partition)),
        exprs@[1].op == CompareOp::Lt,
        exprs@[1].millis == time_range.end,
{
    let column: String = match time_partition {
        Some(name) => name,
        None => DEFAULT_TIMESTAMP_KEY.to_owned(),
    };
    let low = TimeFilterExpr {
        table: table_name.to_owned(),
        column: column.clone(),
        op: CompareOp::GtEq,
        millis: time_range.start,
    };
    let high = TimeFilterExpr {
        table: table_name.to_owned(),
        column,
        op: CompareOp::Lt,
        millis: time_range.end,
    };
    let mut exprs: Vec<TimeFilterExpr> = Vec::new();
    exprs.push(low);
    exprs.push(high);
    exprs
}

/// The filters of a time range: at or after its start, before its end.
pub open spec fn range_filters(time_range: TimeRange) -> Seq<PartialTimeFilter> {
    seq![
        PartialTimeFilter::Low(TimeBound::Included(time_range.start)),
        PartialTimeFilter::High(TimeBound::Excluded(time_range.end)),
    ]
}

/// Builds the predicates of a time range and reads the filters back off
/// them: whatever the stream's time partition, they are the range's two
/// bounds.
pub fn time_filters(time_range: &TimeRange, time_partition: Option<String>, table_name: &str) -> (filters:
    Vec<PartialTimeFilter>)
    ensures
        filters@ == range_filters(*time_range),
{
    let exprs = create_time_filter(time_range, time_partition.clone(), table_name);
    let filters = extract_primary_filter(&exprs, &time_partition);
    proof {
        let tp = opt_view(time_partition);
        let one = exprs@.drop_last();
        assert(one.len() == 1);
        assert(one.drop_last().len() == 0);
        assert(primary_filters(one.drop_last(), tp) =~= Seq::empty());
        assert(one.last() == exprs@[0]);
        assert(exprs@.last() == exprs@[1]);
        assert(is_time_column(exprs@[0].column@, tp));
        assert(is_time_column(exprs@[1].column@, tp));
        assert(primary_filters(one, tp) =~= seq![
            PartialTimeFilter::Low(TimeBound::Included(time_range.start)),
        ]);
        assert(filters@ =~= range_filters(*time_range));
    }
    filters
}

} // verus!
