//! What the server knows of its streams, and the rules on the settings with
//! which a stream is created or changed.

use vstd::prelude::*;
use vstd::hash_map::StringHashMap;
use vstd::string::*;
use crate::status::CreateStreamError;
use crate::status::StreamError;
use crate::status::BAD_REQUEST;
use crate::snapshot::is_min_lower_bound;
use crate::snapshot::ManifestItem;
use crate::snapshot::Snapshot;
use crate::text::has_name;
use crate::text::is_name_of;
use crate::text::str_eq;

verus! {

/// Header that names the time-partition column of a stream.
pub const TIME_PARTITION_KEY: &'static str = "x-p-time-partition";

/// Header that limits how far back the time partition may reach.
pub const TIME_PARTITION_LIMIT_KEY: &'static str = "x-p-time-partition-limit";

/// Header that names the custom partition keys of a stream.
pub const CUSTOM_PARTITION_KEY: &'static str = "x-p-custom-partition";

/// Header that says whether the schema of a stream is fixed.
pub const STATIC_SCHEMA_FLAG: &'static str = "x-p-static-schema-flag";

/// Header that says that an existing stream is to be changed.
pub const UPDATE_STREAM_KEY: &'static str = "x-p-update-stream";

/// Header that names the kind of a stream.
pub const STREAM_TYPE_KEY: &'static str = "x-p-stream-type";

/// The kind of a stream that a user creates.
pub const USER_DEFINED: &'static str = "UserDefined";

/// What the server holds in memory about one stream.
#[derive(Debug)]
pub struct LogStreamMetadata {
    pub first_event_at: Option<String>,
    pub time_partition: Option<String>,
    pub time_partition_limit: Option<String>,
    pub custom_partition: Option<String>,
    pub static_schema_flag: Option<String>,
    pub stream_type: Option<String>,
    pub cache_enabled: bool,
}

/// The streams that the server knows, by name.
pub struct StreamInfo {
    pub streams: StringHashMap<LogStreamMetadata>,
}

impl StreamInfo {
    /// A table without streams.
    pub fn new() -> (table: StreamInfo)
        ensures
            table.streams@ == Map::<Seq<char>, LogStreamMetadata>::empty(),
    {
        StreamInfo { streams: StringHashMap::new() }
    }

    /// Whether a stream of this name is known.
    pub fn stream_exists(&self, stream_name: &str) -> (known: bool)
        ensures
            known == self.streams@.contains_key(stream_name@),
    {
        self.streams.contains_key(stream_name)
    }
}

/// Whether no time of a first event is on record for a stream: the stream
/// is unknown, has no such time, or has an empty one.
pub fn first_event_at_empty(streams: &StreamInfo, stream_name: &str) -> (empty: bool)
    ensures
        empty == !(streams.streams@.contains_key(stream_name@)
            && streams.streams@[stream_name@].first_event_at.is_some()
            && streams.streams@[stream_name@].first_event_at.unwrap()@.len() > 0),
{
    if let Some(stream_info) = streams.streams.get(stream_name) {
        if let Some(first_event_at) = &stream_info.first_event_at {
            return first_event_at.as_str().unicode_len() == 0;
        }
    }
    true
}

/// Deletes from the snapshot of the stream `stream_name` every reference to
/// one of the manifests at `manifest_paths` and returns the smallest lower
/// bound among the references that stay. For a stream that is not known the
/// cleanup fails and the snapshot stays as it is.
pub fn retention_cleanup(
    streams: &StreamInfo,
    stream_name: &str,
    snapshot: &mut Snapshot,
    manifest_paths: &Vec<String>,
) -> (outcome: Result<Option<i64>, StreamError>)
    ensures
        !streams.streams@.contains_key(stream_name@) ==> (outcome matches Err(
            StreamError::StreamNotFound(name),
        ) && name@ == stream_name@) && *final(snapshot) == *old(snapshot),
        streams.streams@.contains_key(stream_name@) ==> (outcome matches Ok(first_event_at)
            && is_min_lower_bound(final(snapshot)@, first_event_at)) && final(snapshot)@ == old(
            snapshot,
        )@.filter(|item: ManifestItem| !has_name(manifest_paths@, item.manifest_path@)),
{
    if !streams.stream_exists(stream_name) {
        return Err(StreamError::StreamNotFound(stream_name.to_owned()));
    }
    Ok(snapshot.retention_cleanup(manifest_paths))
}

/// Counters of one stream.
#[derive(Clone, Copy, Debug, PartialEq, Eq, Structural)]
pub struct Stats {
    pub events: u64,
    pub ingestion: u64,
    pub storage: u64,
}

impl Stats {
    /// The counters of a query node and of the ingest nodes taken together;
    /// nothing where a sum does not fit into 64 bits.
    pub fn total(&self, other: &Stats) -> (sum: Option<Stats>)
        ensures
            match sum {
                Some(stats) => stats.events == self.events + other.events && stats.ingestion
                    == self.ingestion + other.ingestion && stats.storage == self.storage
                    + other.storage,
                None => self.events + other.events > u64::MAX || self.ingestion + other.ingestion
                    > u64::MAX || self.storage + other.storage > u64::MAX,
            },
    {
        let events = match self.events.checked_add(other.events) {
            Some(n) => n,
            None => { return None; },
        };
        let ingestion = match self.ingestion.checked_add(other.ingestion) {
            Some(n) => n,
            None => { return None; },
        };
        let storage = match self.storage.checked_add(other.storage) {
            Some(n) => n,
            None => { return None; },
        };
        Some(Stats { events, ingestion, storage })
    }
}

/// The number that decimal digits write.
pub open spec fn decimal_value(digits: Seq<char>) -> nat
    decreases digits.len(),
{
    if digits.len() == 0 {
        0
    } else {
        decimal_value(digits.drop_last()) * 10 + ((digits.last() as int - '0' as int) as nat)
    }
}

/// A text without the `+` that it may begin with.
pub open spec fn unsigned_part(text: Seq<char>) -> Seq<char> {
    if text.len() > 0 && text[0] == '+' {
        text.drop_first()
    } else {
        text
    }
}

/// Whether every character is a decimal digit.
pub open spec fn all_digits(text: Seq<char>) -> bool {
    forall|i: int| 0 <= i < text.len() ==> '0' <= #[trigger] text[i] <= '9'
}

/// Whether a text writes a whole number from 1 to `u32::MAX`: decimal
/// digits, at least one, after at most one `+`.
pub open spec fn is_positive_u32(text: Seq<char>) -> bool {
    &&& unsigned_part(text).len() > 0
    &&& all_digits(unsigned_part(text))
    &&& 0 < decimal_value(unsigned_part(text)) <= u32::MAX
}

/// Decides whether a text writes a whole number from 1 to `u32::MAX`.
fn parses_positive_u32(text: &str) -> (accepted: bool)
    ensures
        accepted == is_positive_u32(text@),
{
    let n = text.unicode_len();
    let start: usize = if n > 0 && text.get_char(0) == '+' {
        1
    } else {
        0
    };
    let ghost digits = unsigned_part(text@);
    proof {
        assert(digits =~= text@.subrange(start as int, n as int));
    }
    if start == n {
        return false;
    }
    let mut value: u64 = 0;
    let mut over = false;
    let mut i: usize = start;
    proof {
        assert(digits.subrange(0, 0) =~= Seq::<char>::empty());
    }
    while i < n
        invariant
            start <= i <= n,
            n == text@.len(),
            digits == text@.subrange(start as int, n as int),
            digits == unsigned_part(text@),
            forall|j: int| 0 <= j < i - start ==> '0' <= #[trigger] digits[j] <= '9',
            !over ==> value == decimal_value(digits.subrange(0, i - start)) && value <= u32::MAX,
            over ==> decimal_value(digits.subrange(0, i - start)) > u32::MAX,
        decreases n - i,
    {
        let c = text.get_char(i);
        proof {
            assert(digits[i - start] == c);
        }
        if c < '0' || c > '9' {
            proof {
                assert(!('0' <= digits[i - start] <= '9'));
                assert(!all_digits(digits));
            }
            return false;
        }
        let digit: u64 = (c as u32 - '0' as u32) as u64;
        proof {
            let shorter = digits.subrange(0, i - start);
            let longer = digits.subrange(0, i - start + 1);
            assert(longer.drop_last() =~= shorter);
            assert(longer.last() == c);
            assert(decimal_value(longer) == decimal_value(shorter) * 10 + digit);
        }
        if !over {
            value = value * 10 + digit;
            if value > u32::MAX as u64 {
                over = true;
            }
        }
        i += 1;
    }
    proof {
        assert(digits.subrange(0, n - start) =~= digits);
    }
    !over && value > 0
}

/// The parts of a text between the occurrences of `separator`, in their
/// order. A text without the separator is one part, and so is the empty
/// text.
pub open spec fn split_on(text: Seq<char>, separator: char) -> Seq<Seq<char>>
    decreases text.len(),
{
    if text.len() == 0 {
        seq![Seq::empty()]
    } else {
        let before = split_on(text.drop_last(), separator);
        if text.last() == separator {
            before.push(Seq::empty())
        } else {
            before.drop_last().push(before.last().push(text.last()))
        }
    }
}

/// The keys of a comma-separated list, in their order.
pub open spec fn split_keys(list: Seq<char>) -> Seq<Seq<char>> {
    split_on(list, ',')
}

/// The texts of a list of strings.
pub open spec fn texts(names: Seq<String>) -> Seq<Seq<char>> {
    names.map_values(|name: String| name@)
}

/// Splits a text at every occurrence of `separator`.
pub fn split_text(list: &str, separator: char) -> (keys: Vec<String>)
    ensures
        texts(keys@) == split_on(list@, separator),
{
    let n = list.unicode_len();
    let mut keys: Vec<String> = Vec::new();
    let mut start: usize = 0;
    let mut i: usize = 0;
    proof {
        assert(list@.subrange(0, 0) =~= Seq::<char>::empty());
        assert(split_on(list@.subrange(0, 0), separator) =~= seq![Seq::<char>::empty()]);
        assert(split_on(list@.subrange(0, 0), separator).drop_last() =~= texts(keys@));
    }
    while i < n
        invariant
            start <= i <= n,
            n == list@.len(),
            split_on(list@.subrange(0, i as int), separator).len() == keys@.len() + 1,
            split_on(list@.subrange(0, i as int), separator).drop_last() == texts(keys@),
            split_on(list@.subrange(0, i as int), separator).last() == list@.subrange(
                start as int,
                i as int,
            ),
        decreases n - i,
    {
        let ghost before = split_on(list@.subrange(0, i as int), separator);
        let ghost old_keys = keys@;
        proof {
            assert(list@.subrange(0, i + 1).drop_last() =~= list@.subrange(0, i as int));
            assert(list@.subrange(0, i + 1).last() == list@[i as int]);
        }
        if list.get_char(i) == separator {
            let key = list.substring_char(start, i);
            keys.push(key.to_owned());
            start = i + 1;
            proof {
                let after = split_on(list@.subrange(0, i + 1), separator);
                assert(after == before.push(Seq::empty()));
                assert(after.drop_last() =~= before);
                assert(before =~= before.drop_last().push(before.last()));
                assert(texts(keys@) =~= texts(old_keys).push(before.last()));
                assert(list@.subrange(i + 1, i + 1) =~= Seq::<char>::empty());
            }
        } else {
            proof {
                let after = split_on(list@.subrange(0, i + 1), separator);
                assert(after == before.drop_last().push(before.last().push(list@[i as int])));
                assert(after.drop_last() =~= before.drop_last());
                assert(list@.subrange(start as int, i + 1) =~= list@.subrange(
                    start as int,
                    i as int,
                ).push(list@[i as int]));
            }
        }
        i += 1;
    }
    let ghost before = split_on(list@.subrange(0, n as int), separator);
    let ghost old_keys = keys@;
    let key = list.substring_char(start, n);
    keys.push(key.to_owned());
    proof {
        assert(list@.subrange(0, n as int) =~= list@);
        assert(before =~= before.drop_last().push(before.last()));
        assert(texts(keys@) =~= texts(old_keys).push(before.last()));
    }
    keys
}

/// Splits a comma-separated list into its keys.
pub fn custom_partition_keys(list: &str) -> (keys: Vec<String>)
    ensures
        texts(keys@) == split_keys(list@),
{
    split_text(list, ',')
}

/// The day for which the statistics of a stream are asked, as the query of
/// a request names it with `date=`: none for an empty query and for an
/// empty day.
pub open spec fn day_asked(query: Seq<char>) -> Option<Seq<char>> {
    if query.len() == 0 || split_on(query, '=')[1].len() == 0 {
        None
    } else {
        Some(split_on(query, '=')[1])
    }
}

/// Whether a query names something else than a day.
pub open spec fn is_foreign_query(query: Seq<char>) -> bool {
    query.len() > 0 && (split_on(query, '=').len() < 2 || split_on(query, '=')[0] != "date"@)
}

/// Reads the day off the query of a request for statistics. A query that
/// does not begin with `date=` is refused.
pub fn stats_date(query_string: &str) -> (outcome: Result<Option<String>, StreamError>)
    ensures
        is_foreign_query(query_string@) ==> (outcome matches Err(error) && is_refusal(
            error,
            "Invalid query parameter"@,
        )),
        !is_foreign_query(query_string@) ==> (outcome matches Ok(day) && crate::text::opt_view(day)
            == day_asked(query_string@)),
{
    if query_string.unicode_len() == 0 {
        return Ok(None);
    }
    let mut parts = split_text(query_string, '=');
    proof {
        assert(texts(parts@).len() == parts@.len());
        if parts@.len() >= 2 {
            assert(texts(parts@)[0] == parts@[0]@);
            assert(texts(parts@)[1] == parts@[1]@);
        }
    }
    if parts.len() < 2 || !str_eq(parts[0].as_str(), "date") {
        return Err(refusal("Invalid query parameter".to_owned()));
    }
    let day = parts.swap_remove(1);
    if day.as_str().unicode_len() == 0 {
        return Ok(None);
    }
    Ok(Some(day))
}

/// Why the settings of a stream are refused.
#[derive(Clone, Copy, Debug, PartialEq, Eq, Structural)]
pub enum SettingFault {
    /// The limit of the time partition does not end in `d`.
    LimitWithoutSuffix,
    /// The limit of the time partition is no positive number of days.
    LimitNotANumber,
    /// More than three custom partition keys.
    TooManyKeys,
    /// The time-partition column is also a custom partition key.
    TimePartitionAsKey,
}

impl SettingFault {
    /// Whether `error` reports this fault; `time_partition` is the
    /// time-partition column that the settings name.
    pub open spec fn reported_by(self, error: CreateStreamError, time_partition: Seq<char>) -> bool {
        error matches CreateStreamError::Custom { msg, status } && status == BAD_REQUEST && msg@
            == match self {
            SettingFault::LimitWithoutSuffix => "Missing 'd' suffix for duration value"@,
            SettingFault::LimitNotANumber => "Could not convert duration to an unsigned number"@,
            SettingFault::TooManyKeys => "Maximum 3 custom partition keys are supported"@,
            SettingFault::TimePartitionAsKey => "time partition "@ + time_partition
                + " cannot be set as custom partition"@,
        }
    }
}

fn setting_error(fault: SettingFault, time_partition: &str) -> (error: CreateStreamError)
    ensures
        fault.reported_by(error, time_partition@),
{
    let msg = match fault {
        SettingFault::LimitWithoutSuffix => "Missing 'd' suffix for duration value".to_owned(),
        SettingFault::LimitNotANumber => "Could not convert duration to an unsigned number".to_owned(),
        SettingFault::TooManyKeys => "Maximum 3 custom partition keys are supported".to_owned(),
        SettingFault::TimePartitionAsKey => {
            let mut text = "time partition ".to_owned();
            text.append(time_partition);
            text.append(" cannot be set as custom partition");
            text
        },
    };
    CreateStreamError::Custom { msg, status: BAD_REQUEST }
}

/// The fault in the limit of a time partition, which is written as a
/// positive number of days followed by `d`.
pub open spec fn limit_fault(limit: Seq<char>) -> Option<SettingFault> {
    if limit.len() == 0 || limit.last() != 'd' {
        Some(SettingFault::LimitWithoutSuffix)
    } else if !is_positive_u32(limit.drop_last()) {
        Some(SettingFault::LimitNotANumber)
    } else {
        None
    }
}

/// Checks the limit of a time partition and returns its number of days as
/// written.
pub fn validate_time_partition_limit(time_partition_limit: &str) -> (outcome: Result<
    &str,
    CreateStreamError,
>)
    ensures
        match limit_fault(time_partition_limit@) {
            Some(fault) => outcome matches Err(error) && fault.reported_by(error, Seq::empty()),
            None => outcome matches Ok(days) && days@ == time_partition_limit@.drop_last(),
        },
{
    let n = time_partition_limit.unicode_len();
    if n == 0 || time_partition_limit.get_char(n - 1) != 'd' {
        return Err(setting_error(SettingFault::LimitWithoutSuffix, ""));
    }
    let days = time_partition_limit.substring_char(0, n - 1);
    proof {
        assert(time_partition_limit@.subrange(0, n - 1) =~= time_partition_limit@.drop_last());
    }
    if !parses_positive_u32(days) {
        return Err(setting_error(SettingFault::LimitNotANumber, ""));
    }
    Ok(days)
}

/// Checks that a list names at most three custom partition keys.
pub fn validate_custom_partition(custom_partition: &str) -> (outcome: Result<(), CreateStreamError>)
    ensures
        split_keys(custom_partition@).len() > 3 ==> (outcome matches Err(error)
            && SettingFault::TooManyKeys.reported_by(error, Seq::empty())),
        split_keys(custom_partition@).len() <= 3 ==> outcome.is_ok(),
{
    let keys = custom_partition_keys(custom_partition);
    proof {
        assert(texts(keys@).len() == keys@.len());
    }
    if keys.len() > 3 {
        return Err(setting_error(SettingFault::TooManyKeys, ""));
    }
    Ok(())
}

/// Checks that the time-partition column is not among the custom partition
/// keys.
pub fn validate_time_with_custom_partition(time_partition: &str, custom_partition: &str) -> (outcome:
    Result<(), CreateStreamError>)
    ensures
        split_keys(custom_partition@).contains(time_partition@) ==> (outcome matches Err(error)
            && SettingFault::TimePartitionAsKey.reported_by(error, time_partition@)),
        !split_keys(custom_partition@).contains(time_partition@) ==> outcome.is_ok(),
{
    let keys = custom_partition_keys(custom_partition);
    let found = is_name_of(&keys, time_partition);
    proof {
        if has_name(keys@, time_partition@) {
            let k = choose|k: int| 0 <= k < keys@.len() && (#[trigger] keys@[k])@ == time_partition@;
            assert(texts(keys@)[k] == time_partition@);
        }
        if split_keys(custom_partition@).contains(time_partition@) {
            let k = choose|k: int|
                0 <= k < texts(keys@).len() && texts(keys@)[k] == time_partition@;
            assert(keys@[k]@ == time_partition@);
        }
    }
    if found {
        return Err(setting_error(SettingFault::TimePartitionAsKey, time_partition));
    }
    Ok(())
}

/// The settings that a request to create or change a stream carries in its
/// headers. A setting that is not sent is empty.
#[derive(Debug)]
pub struct PutStreamHeaders {
    pub time_partition: String,
    pub time_partition_limit: String,
    pub custom_partition: String,
    pub static_schema_flag: String,
    pub update_stream: String,
    pub stream_type: String,
}

/// The value of the header `key` in a list of headers: that of the last
/// header of this name, and `unset` where there is none.
pub open spec fn header_value(headers: Seq<(String, String)>, key: Seq<char>, unset: Seq<char>) -> Seq<
    char,
>
    decreases headers.len(),
{
    if headers.len() == 0 {
        unset
    } else if headers.last().0@ == key {
        headers.last().1@
    } else {
        header_value(headers.drop_last(), key, unset)
    }
}

/// Reads the settings of a stream off the headers of a request.
pub fn fetch_headers_from_put_stream_request(headers: &Vec<(String, String)>) -> (settings:
    PutStreamHeaders)
    ensures
        settings.time_partition@ == header_value(headers@, TIME_PARTITION_KEY@, Seq::empty()),
        settings.time_partition_limit@ == header_value(
            headers@,
            TIME_PARTITION_LIMIT_KEY@,
            Seq::empty(),
        ),
        settings.custom_partition@ == header_value(headers@, CUSTOM_PARTITION_KEY@, Seq::empty()),
        settings.static_schema_flag@ == header_value(headers@, STATIC_SCHEMA_FLAG@, Seq::empty()),
        settings.update_stream@ == header_value(headers@, UPDATE_STREAM_KEY@, Seq::empty()),
        settings.stream_type@ == header_value(headers@, STREAM_TYPE_KEY@, USER_DEFINED@),
{
    let mut time_partition = String::new();
    let mut time_partition_limit = String::new();
    let mut custom_partition = String::new();
    let mut static_schema_flag = String::new();
    let mut update_stream = String::new();
    let mut stream_type = USER_DEFINED.to_owned();
    let mut i: usize = 0;
    while i < headers.len()
        invariant
            i <= headers.len(),
            time_partition@ == header_value(
                headers@.subrange(0, i as int),
                TIME_PARTITION_KEY@,
                Seq::empty(),
            ),
            time_partition_limit@ == header_value(
                headers@.subrange(0, i as int),
                TIME_PARTITION_LIMIT_KEY@,
                Seq::empty(),
            ),
            custom_partition@ == header_value(
                headers@.subrange(0, i as int),
                CUSTOM_PARTITION_KEY@,
                Seq::empty(),
            ),
            static_schema_flag@ == header_value(
                headers@.subrange(0, i as int),
                STATIC_SCHEMA_FLAG@,
                Seq::empty(),
            ),
            update_stream@ == header_value(
                headers@.subrange(0, i as int),
                UPDATE_STREAM_KEY@,
                Seq::empty(),
            ),
            stream_type@ == header_value(
                headers@.subrange(0, i as int),
                STREAM_TYPE_KEY@,
                USER_DEFINED@,
            ),
        decreases headers.len() - i,
    {
        proof {
            assert(headers@.subrange(0, i + 1).drop_last() =~= headers@.subrange(0, i as int));
            assert(headers@.subrange(0, i + 1).last() == headers@[i as int]);
        }
        let key = headers[i].0.as_str();
        let value = &headers[i].1;
        if str_eq(key, TIME_PARTITION_KEY) {
            time_partition = value.clone();
        }
        if str_eq(key, TIME_PARTITION_LIMIT_KEY) {
            time_partition_limit = value.clone();
        }
        if str_eq(key, CUSTOM_PARTITION_KEY) {
            custom_partition = value.clone();
        }
        if str_eq(key, STATIC_SCHEMA_FLAG) {
            static_schema_flag = value.clone();
        }
        if str_eq(key, UPDATE_STREAM_KEY) {
            update_stream = value.clone();
        }
        if str_eq(key, STREAM_TYPE_KEY) {
            stream_type = value.clone();
        }
        i += 1;
    }
    proof {
        assert(headers@.subrange(0, i as int) =~= headers@);
    }
    PutStreamHeaders {
        time_partition,
        time_partition_limit,
        custom_partition,
        static_schema_flag,
        update_stream,
        stream_type,
    }
}

/// What is to be done for a request to create or change a stream.
#[derive(Debug)]
pub enum PutStreamAction {
    /// Set the limit of the time partition of the existing stream to this
    /// number of days.
    UpdateTimePartitionLimit { days: String },
    /// Set the custom partition keys of the existing stream.
    UpdateCustomPartition { custom_partition: String },
    /// Create the stream, with this limit of the time partition in days,
    /// which is empty where none was asked for.
    Create { time_partition_in_days: String },
}

/// Why a request to create or change a stream is refused.
#[derive(Clone, Copy, Debug, PartialEq, Eq, Structural)]
pub enum PutStreamFault {
    /// The stream exists and the request does not ask for a change.
    AlreadyExists,
    /// The request asks for a change of a stream that does not exist.
    NotFound,
    /// The request asks for another time partition of an existing stream.
    AlterTimePartition,
    /// The request asks for another schema of an existing stream.
    AlterSchema,
    Setting(SettingFault),
}

impl PutStreamFault {
    /// Whether `error` reports this fault in a request for the stream
    /// `stream_name` that names the time partition `time_partition`.
    pub open spec fn reported_by(
        self,
        error: StreamError,
        stream_name: Seq<char>,
        time_partition: Seq<char>,
    ) -> bool {
        match self {
            PutStreamFault::AlreadyExists => is_refusal(
                error,
                "Logstream "@ + stream_name
                    + " already exists, please create a new log stream with unique name"@,
            ),
            PutStreamFault::NotFound => error matches StreamError::StreamNotFound(name) && name@
                == stream_name,
            PutStreamFault::AlterTimePartition => is_refusal(
                error,
                "Altering the time partition of an existing stream is restricted."@,
            ),
            PutStreamFault::AlterSchema => is_refusal(
                error,
                "Altering the schema of an existing stream is restricted."@,
            ),
            PutStreamFault::Setting(fault) => error matches StreamError::CreateStream(inner)
                && fault.reported_by(inner, time_partition),
        }
    }
}

/// Whether `error` refuses a request with the message `text`.
pub open spec fn is_refusal(error: StreamError, text: Seq<char>) -> bool {
    error matches StreamError::Custom { msg, status } && status == BAD_REQUEST && msg@ == text
}

fn refusal(text: String) -> (error: StreamError)
    ensures
        is_refusal(error, text@),
{
    StreamError::Custom { msg: text, status: BAD_REQUEST }
}

impl PutStreamHeaders {
    /// Whether the request asks for a change of an existing stream.
    pub open spec fn updating(self) -> bool {
        self.update_stream@ == "true"@
    }

    /// The fault in the custom partition keys, where any are named.
    pub open spec fn keys_fault(self) -> Option<SettingFault> {
        if self.custom_partition@.len() > 0 && split_keys(self.custom_partition@).len() > 3 {
            Some(SettingFault::TooManyKeys)
        } else {
            None
        }
    }

    /// The fault in the limit of the time partition, where one is named.
    pub open spec fn named_limit_fault(self) -> Option<SettingFault> {
        if self.time_partition_limit@.len() > 0 {
            limit_fault(self.time_partition_limit@)
        } else {
            None
        }
    }

    /// The first fault of the request, given whether the stream exists.
    pub open spec fn fault(self, stream_exists: bool) -> Option<PutStreamFault> {
        if stream_exists && !self.updating() {
            Some(PutStreamFault::AlreadyExists)
        } else if self.updating() {
            if !stream_exists {
                Some(PutStreamFault::NotFound)
            } else if self.time_partition@.len() > 0 {
                Some(PutStreamFault::AlterTimePartition)
            } else if self.static_schema_flag@.len() > 0 {
                Some(PutStreamFault::AlterSchema)
            } else if self.time_partition_limit@.len() > 0 {
                match limit_fault(self.time_partition_limit@) {
                    Some(fault) => Some(PutStreamFault::Setting(fault)),
                    None => None,
                }
            } else {
                match self.keys_fault() {
                    Some(fault) => Some(PutStreamFault::Setting(fault)),
                    None => None,
                }
            }
        } else if self.named_limit_fault().is_some() {
            Some(PutStreamFault::Setting(self.named_limit_fault().unwrap()))
        } else if self.keys_fault().is_some() {
            Some(PutStreamFault::Setting(SettingFault::TooManyKeys))
        } else if self.time_partition@.len() > 0 && self.custom_partition@.len() > 0 && split_keys(
            self.custom_partition@,
        ).contains(self.time_partition@) {
            Some(PutStreamFault::Setting(SettingFault::TimePartitionAsKey))
        } else {
            None
        }
    }

    /// Whether `action` is what a request without fault asks for: a change
    /// of the limit of the time partition where one is named, else a change
    /// of the custom partition keys, and for a new stream its creation.
    pub open spec fn asks_for(self, action: PutStreamAction) -> bool {
        if self.updating() {
            if self.time_partition_limit@.len() > 0 {
                action matches PutStreamAction::UpdateTimePartitionLimit { days } && days@
                    == self.time_partition_limit@.drop_last()
            } else {
                action matches PutStreamAction::UpdateCustomPartition { custom_partition }
                    && custom_partition@ == self.custom_partition@
            }
        } else {
            action matches PutStreamAction::Create { time_partition_in_days }
                && time_partition_in_days@ == if self.time_partition_limit@.len() > 0 {
                self.time_partition_limit@.drop_last()
            } else {
                Seq::empty()
            }
        }
    }
}

/// Whether `outcome` answers a request with the given fault.
pub open spec fn answers(
    outcome: Result<PutStreamAction, StreamError>,
    settings: PutStreamHeaders,
    stream_name: Seq<char>,
    fault: Option<PutStreamFault>,
) -> bool {
    match fault {
        Some(found) => outcome matches Err(error) && found.reported_by(
            error,
            stream_name,
            settings.time_partition@,
        ),
        None => outcome matches Ok(action) && settings.asks_for(action),
    }
}

fn setting_refusal(fault: SettingFault, time_partition: &str) -> (error: StreamError)
    ensures
        PutStreamFault::Setting(fault).reported_by(error, Seq::empty(), time_partition@),
        fault != SettingFault::TimePartitionAsKey ==> forall|name: Seq<char>, column: Seq<char>|
            #[trigger] PutStreamFault::Setting(fault).reported_by(error, name, column),
{
    StreamError::CreateStream(setting_error(fault, time_partition))
}

fn check_limit(limit: &str) -> (outcome: Result<String, SettingFault>)
    ensures
        match limit_fault(limit@) {
            Some(fault) => outcome == Err::<String, SettingFault>(fault),
            None => outcome matches Ok(days) && days@ == limit@.drop_last(),
        },
{
    let n = limit.unicode_len();
    if n == 0 || limit.get_char(n - 1) != 'd' {
        return Err(SettingFault::LimitWithoutSuffix);
    }
    let days = limit.substring_char(0, n - 1);
    proof {
        assert(limit@.subrange(0, n - 1) =~= limit@.drop_last());
    }
    if !parses_positive_u32(days) {
        return Err(SettingFault::LimitNotANumber);
    }
    Ok(days.to_owned())
}

/// Decides what a request to create or change the stream `stream_name`
/// leads to, given its settings and whether the stream exists.
pub fn create_update_stream(settings: &PutStreamHeaders, stream_name: &str, stream_exists: bool) -> (outcome:
    Result<PutStreamAction, StreamError>)
    ensures
        answers(outcome, *settings, stream_name@, settings.fault(stream_exists)),
{
    let updating = str_eq(settings.update_stream.as_str(), "true");
    let has_limit = settings.time_partition_limit.as_str().unicode_len() > 0;
    let has_keys = settings.custom_partition.as_str().unicode_len() > 0;
    let has_time_partition = settings.time_partition.as_str().unicode_len() > 0;
    if stream_exists && !updating {
        let mut text = "Logstream ".to_owned();
        text.append(stream_name);
        text.append(" already exists, please create a new log stream with unique name");
        return Err(refusal(text));
    }
    if updating {
        if !stream_exists {
            return Err(StreamError::StreamNotFound(stream_name.to_owned()));
        }
        if has_time_partition {
            return Err(
                refusal(
                    "Altering the time partition of an existing stream is restricted.".to_owned(),
                ),
            );
        }
        if settings.static_schema_flag.as_str().unicode_len() > 0 {
            return Err(
                refusal("Altering the schema of an existing stream is restricted.".to_owned()),
            );
        }
        if has_limit {
            return match check_limit(settings.time_partition_limit.as_str()) {
                Ok(days) => Ok(PutStreamAction::UpdateTimePartitionLimit { days }),
                Err(fault) => Err(setting_refusal(fault, "")),
            };
        }
        if has_keys {
            let keys = custom_partition_keys(settings.custom_partition.as_str());
            proof {
                assert(texts(keys@).len() == keys@.len());
            }
            if keys.len() > 3 {
                return Err(setting_refusal(SettingFault::TooManyKeys, ""));
            }
        }
        return Ok(
            PutStreamAction::UpdateCustomPartition {
                custom_partition: settings.custom_partition.clone(),
            },
        );
    }
    let mut time_partition_in_days = String::new();
    if has_limit {
        match check_limit(settings.time_partition_limit.as_str()) {
            Ok(days) => {
                time_partition_in_days = days;
            },
            Err(fault) => {
                return Err(setting_refusal(fault, ""));
            },
        }
    }
    if has_keys {
        let keys = custom_partition_keys(settings.custom_partition.as_str());
        proof {
            assert(texts(keys@).len() == keys@.len());
        }
        if keys.len() > 3 {
            return Err(setting_refusal(SettingFault::TooManyKeys, ""));
        }
        if has_time_partition {
            let found = is_name_of(&keys, settings.time_partition.as_str());
            proof {
                let wanted = settings.time_partition@;
                if has_name(keys@, wanted) {
                    let k = choose|k: int| 0 <= k < keys@.len() && (#[trigger] keys@[k])@ == wanted;
                    assert(texts(keys@)[k] == wanted);
                }
                if split_keys(settings.custom_partition@).contains(wanted) {
                    let k = choose|k: int| 0 <= k < texts(keys@).len() && texts(keys@)[k] == wanted;
                    assert(keys@[k]@ == wanted);
                }
            }
            if found {
                return Err(
                    setting_refusal(
                        SettingFault::TimePartitionAsKey,
                        settings.time_partition.as_str(),
                    ),
                );
            }
        }
    }
    Ok(PutStreamAction::Create { time_partition_in_days })
}

/// What is wrong with a custom partition key of a stream with a fixed
/// schema.
#[derive(Clone, Copy, Debug, PartialEq, Eq, Structural)]
pub enum KeyFault {
    /// The schema has no field of this name.
    NotInSchema,
    /// The key is the time-partition column.
    IsTimePartition,
}

/// The fault of one custom partition key.
pub open spec fn key_fault(key: Seq<char>, fields: Seq<String>, time_partition: Option<Seq<char>>) -> Option<
    KeyFault,
> {
    if !has_name(fields, key) {
        Some(KeyFault::NotInSchema)
    } else if time_partition == Some(key) {
        Some(KeyFault::IsTimePartition)
    } else {
        None
    }
}

impl KeyFault {
    /// Whether `error` reports this fault of the key `key` of the stream
    /// `stream_name`.
    pub open spec fn reported_by(self, error: CreateStreamError, key: Seq<char>, stream_name: Seq<char>) -> bool {
        error matches CreateStreamError::Custom { msg, status } && status == BAD_REQUEST && msg@
            == match self {
            KeyFault::NotInSchema => "custom partition field "@ + key
                + " does not exist in the schema for the stream "@ + stream_name,
            KeyFault::IsTimePartition => "time partition "@ + key
                + " cannot be set as custom partition"@,
        }
    }
}

/// Checks the custom partition keys that an existing stream with a fixed
/// schema is to get: every key must be a field of the schema and none may
/// be the time-partition column. The first key at fault is reported. An
/// empty list names no key.
pub fn validate_custom_partition_for_schema(
    stream_name: &str,
    custom_partition: &str,
    fields: &Vec<String>,
    time_partition: &Option<String>,
) -> (outcome: Result<(), CreateStreamError>)
    ensures
        custom_partition@.len() == 0 ==> outcome.is_ok(),
        custom_partition@.len() > 0 ==> match outcome {
            Ok(_) => forall|k: int|
                0 <= k < split_keys(custom_partition@).len() ==> key_fault(
                    #[trigger] split_keys(custom_partition@)[k],
                    fields@,
                    crate::text::opt_view(*time_partition),
                ).is_none(),
            Err(error) => exists|k: int|
                0 <= k < split_keys(custom_partition@).len() && first_fault_at(
                    split_keys(custom_partition@),
                    fields@,
                    crate::text::opt_view(*time_partition),
                    k,
                ) && key_fault(
                    split_keys(custom_partition@)[k],
                    fields@,
                    crate::text::opt_view(*time_partition),
                ).unwrap().reported_by(error, split_keys(custom_partition@)[k], stream_name@),
        },
{
    if custom_partition.unicode_len() == 0 {
        return Ok(());
    }
    let keys = custom_partition_keys(custom_partition);
    let ghost all = split_keys(custom_partition@);
    let ghost column = crate::text::opt_view(*time_partition);
    proof {
        assert(texts(keys@).len() == keys@.len());
    }
    let mut k: usize = 0;
    while k < keys.len()
        invariant
            k <= keys.len(),
            custom_partition@.len() > 0,
            all == split_keys(custom_partition@),
            column == crate::text::opt_view(*time_partition),
            texts(keys@) == all,
            forall|j: int| 0 <= j < k ==> key_fault(#[trigger] all[j], fields@, column).is_none(),
        decreases keys.len() - k,
    {
        let key = keys[k].as_str();
        proof {
            assert(texts(keys@)[k as int] == key@);
        }
        if !is_name_of(fields, key) {
            let mut msg = "custom partition field ".to_owned();
            msg.append(key);
            msg.append(" does not exist in the schema for the stream ");
            msg.append(stream_name);
            proof {
                assert(first_fault_at(all, fields@, column, k as int));
            }
            return Err(CreateStreamError::Custom { msg, status: BAD_REQUEST });
        }
        let is_time_partition = match time_partition {
            Some(name) => str_eq(name.as_str(), key),
            None => false,
        };
        if is_time_partition {
            let mut msg = "time partition ".to_owned();
            msg.append(key);
            msg.append(" cannot be set as custom partition");
            proof {
                assert(first_fault_at(all, fields@, column, k as int));
            }
            return Err(CreateStreamError::Custom { msg, status: BAD_REQUEST });
        }
        k += 1;
    }
    Ok(())
}

/// Whether the key at position `k` is the first key at fault.
pub open spec fn first_fault_at(
    keys: Seq<Seq<char>>,
    fields: Seq<String>,
    time_partition: Option<Seq<char>>,
    k: int,
) -> bool {
    &&& 0 <= k < keys.len()
    &&& key_fault(keys[k], fields, time_partition).is_some()
    &&& forall|j: int| 0 <= j < k ==> key_fault(#[trigger] keys[j], fields, time_partition).is_none()
}

} // verus!
