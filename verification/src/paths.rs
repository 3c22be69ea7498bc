//! Reading the time partition out of the storage path of a data file.
//!
//! A data file is stored under `<stream>/date=YYYY-MM-DD/hour=HH/minute=MM/`:
//! after the first `/` of its path stand the date, the hour and the minute of
//! the partition that it belongs to.

use vstd::prelude::*;
use vstd::string::*;
use vstd::utf8::encode_utf8;

verus! {

/// The byte `/`.
pub const SLASH: u8 = 47;

/// The byte `-`.
pub const DASH: u8 = 45;

/// The minute of a day under which a data file is stored.
#[derive(Clone, Copy, Debug, PartialEq, Eq, Structural)]
pub struct PartitionTime {
    pub year: i32,
    pub month: u32,
    pub day: u32,
    pub hour: u32,
    pub minute: u32,
}

/// The bytes of `date=`.
pub open spec fn date_tag() -> Seq<u8> {
    seq![100u8, 97u8, 116u8, 101u8, 61u8]
}

/// The bytes of `/hour=`.
pub open spec fn hour_tag() -> Seq<u8> {
    seq![47u8, 104u8, 111u8, 117u8, 114u8, 61u8]
}

/// The bytes of `/minute=`.
pub open spec fn minute_tag() -> Seq<u8> {
    seq![47u8, 109u8, 105u8, 110u8, 117u8, 116u8, 101u8, 61u8]
}

/// Whether `b` is one of the bytes `0` to `9`.
pub open spec fn is_digit(b: u8) -> bool {
    48 <= b <= 57
}

/// Whether the `tag` stands in `bytes` at position `at`.
pub open spec fn tag_at(bytes: Seq<u8>, at: int, tag: Seq<u8>) -> bool {
    &&& 0 <= at
    &&& at + tag.len() <= bytes.len()
    &&& bytes.subrange(at, at + tag.len()) == tag
}

/// Whether two decimal digits stand in `bytes` at position `at`.
pub open spec fn two_digits_at(bytes: Seq<u8>, at: int) -> bool {
    0 <= at && at + 2 <= bytes.len() && is_digit(bytes[at]) && is_digit(bytes[at + 1])
}

/// The number that two decimal digits at position `at` write.
pub open spec fn two_digits(bytes: Seq<u8>, at: int) -> int {
    (bytes[at] - 48) * 10 + (bytes[at + 1] - 48)
}

/// Whether `date=YYYY-MM-DD/hour=HH/minute=MM` stands in `bytes` at position
/// `at` and ends there or at a `/`.
pub open spec fn layout_at(bytes: Seq<u8>, at: int) -> bool {
    &&& tag_at(bytes, at, date_tag())
    &&& two_digits_at(bytes, at + 5)
    &&& two_digits_at(bytes, at + 7)
    &&& at + 9 < bytes.len() && bytes[at + 9] == DASH
    &&& two_digits_at(bytes, at + 10)
    &&& at + 12 < bytes.len() && bytes[at + 12] == DASH
    &&& two_digits_at(bytes, at + 13)
    &&& tag_at(bytes, at + 15, hour_tag())
    &&& two_digits_at(bytes, at + 21)
    &&& tag_at(bytes, at + 23, minute_tag())
    &&& two_digits_at(bytes, at + 31)
    &&& (at + 33 == bytes.len() || bytes[at + 33] == SLASH)
}

/// The partition time written at position `at`.
pub open spec fn time_at(bytes: Seq<u8>, at: int) -> PartitionTime {
    PartitionTime {
        year: (two_digits(bytes, at + 5) * 100 + two_digits(bytes, at + 7)) as i32,
        month: two_digits(bytes, at + 10) as u32,
        day: two_digits(bytes, at + 13) as u32,
        hour: two_digits(bytes, at + 21) as u32,
        minute: two_digits(bytes, at + 31) as u32,
    }
}

/// Whether the first `/` of `bytes` stands at position `p`.
pub open spec fn is_first_slash(bytes: Seq<u8>, p: int) -> bool {
    &&& 0 <= p < bytes.len()
    &&& bytes[p] == SLASH
    &&& forall|j: int| 0 <= j < p ==> bytes[j] != SLASH
}

/// The partition time of a path: what is written after its first `/`, where
/// there is one and the layout is kept.
pub open spec fn partition_time(bytes: Seq<u8>) -> Option<PartitionTime> {
    if exists|p: int| is_first_slash(bytes, p) && layout_at(bytes, p + 1) {
        let p = choose|p: int| is_first_slash(bytes, p) && layout_at(bytes, p + 1);
        Some(time_at(bytes, p + 1))
    } else {
        None
    }
}

/// The partition time of the path of a data file.
pub open spec fn path_time(path: Seq<char>) -> Option<PartitionTime> {
    partition_time(encode_utf8(path))
}

fn has_tag(bytes: &[u8], at: usize, tag: &Vec<u8>) -> (found: bool)
    requires
        at + tag@.len() <= usize::MAX,
    ensures
        found == tag_at(bytes@, at as int, tag@),
{
    if tag.len() > bytes.len() || at > bytes.len() - tag.len() {
        return false;
    }
    let mut i: usize = 0;
    while i < tag.len()
        invariant
            i <= tag@.len(),
            at + tag@.len() <= bytes@.len() <= usize::MAX,
            forall|j: int| 0 <= j < i ==> bytes@[at + j] == tag@[j],
        decreases tag.len() - i,
    {
        if bytes[at + i] != tag[i] {
            proof {
                assert(bytes@.subrange(at as int, at + tag@.len())[i as int] == bytes@[at + i]);
            }
            return false;
        }
        i += 1;
    }
    proof {
        assert(bytes@.subrange(at as int, at + tag@.len()) =~= tag@);
    }
    true
}

fn read_two_digits(bytes: &[u8], at: usize) -> (number: Option<u32>)
    requires
        at + 2 <= usize::MAX,
    ensures
        number.is_some() == two_digits_at(bytes@, at as int),
        number.is_some() ==> number.unwrap() == two_digits(bytes@, at as int),
        number.is_some() ==> number.unwrap() <= 99,
{
    if bytes.len() < 2 || at > bytes.len() - 2 {
        return None;
    }
    let high: u8 = bytes[at];
    let low: u8 = bytes[at + 1];
    if high < 48 || high > 57 || low < 48 || low > 57 {
        return None;
    }
    let tens: u32 = (high - 48) as u32;
    let ones: u32 = (low - 48) as u32;
    Some(tens * 10 + ones)
}

fn has_byte(bytes: &[u8], at: usize, b: u8) -> (found: bool)
    ensures
        found == (at < bytes@.len() && bytes@[at as int] == b),
{
    at < bytes.len() && bytes[at] == b
}

/// Reads the partition time written at position `at`, where the layout is
/// kept there.
fn read_layout(bytes: &[u8], at: usize) -> (time: Option<PartitionTime>)
    requires
        at <= bytes@.len(),
    ensures
        time.is_some() == layout_at(bytes@, at as int),
        time.is_some() ==> time.unwrap() == time_at(bytes@, at as int),
        time.is_some() ==> time.unwrap().writable(),
{
    let date = vec![100u8, 97u8, 116u8, 101u8, 61u8];
    let hour = vec![47u8, 104u8, 111u8, 117u8, 114u8, 61u8];
    let minute = vec![47u8, 109u8, 105u8, 110u8, 117u8, 116u8, 101u8, 61u8];
    proof {
        assert(date@ =~= date_tag());
        assert(hour@ =~= hour_tag());
        assert(minute@ =~= minute_tag());
    }
    if bytes.len() - at < 33 {
        return None;
    }
    if !has_tag(bytes, at, &date) {
        return None;
    }
    let Some(century) = read_two_digits(bytes, at + 5) else {
        return None;
    };
    let Some(years) = read_two_digits(bytes, at + 7) else {
        return None;
    };
    if !has_byte(bytes, at + 9, DASH) {
        return None;
    }
    let Some(month) = read_two_digits(bytes, at + 10) else {
        return None;
    };
    if !has_byte(bytes, at + 12, DASH) {
        return None;
    }
    let Some(day) = read_two_digits(bytes, at + 13) else {
        return None;
    };
    if !has_tag(bytes, at + 15, &hour) {
        return None;
    }
    let Some(hours) = read_two_digits(bytes, at + 21) else {
        return None;
    };
    if !has_tag(bytes, at + 23, &minute) {
        return None;
    }
    let Some(minutes) = read_two_digits(bytes, at + 31) else {
        return None;
    };
    if !(at + 33 == bytes.len() || has_byte(bytes, at + 33, SLASH)) {
        return None;
    }
    let year: i32 = (century * 100 + years) as i32;
    Some(PartitionTime { year, month, day, hour: hours, minute: minutes })
}

/// Reads the partition time of a path given as bytes.
pub fn parse_partition_time(bytes: &[u8]) -> (time: Option<PartitionTime>)
    ensures
        time == partition_time(bytes@),
        time.is_some() ==> time.unwrap().writable(),
{
    let mut p: usize = 0;
    while p < bytes.len() && bytes[p] != SLASH
        invariant
            p <= bytes@.len(),
            forall|j: int| 0 <= j < p ==> bytes@[j] != SLASH,
        decreases bytes.len() - p,
    {
        p += 1;
    }
    if p >= bytes.len() {
        proof {
            assert forall|q: int| !is_first_slash(bytes@, q) by {}
        }
        return None;
    }
    proof {
        assert(is_first_slash(bytes@, p as int));
        assert forall|q: int| is_first_slash(bytes@, q) implies q == p by {}
    }
    read_layout(bytes, p + 1)
}

/// Reads the partition time of the path of a data file.
pub fn path_partition_time(path: &str) -> (time: Option<PartitionTime>)
    ensures
        time == path_time(path@),
        time.is_some() ==> time.unwrap().writable(),
{
    parse_partition_time(path.as_bytes())
}

/// The character that writes a digit.
pub open spec fn digit_text(digit: int) -> Seq<char> {
    if digit == 0 {
        "0"@
    } else if digit == 1 {
        "1"@
    } else if digit == 2 {
        "2"@
    } else if digit == 3 {
        "3"@
    } else if digit == 4 {
        "4"@
    } else if digit == 5 {
        "5"@
    } else if digit == 6 {
        "6"@
    } else if digit == 7 {
        "7"@
    } else if digit == 8 {
        "8"@
    } else {
        "9"@
    }
}

/// A number below one hundred in two digits.
pub open spec fn two_digit_text(number: int) -> Seq<char> {
    digit_text(number / 10) + digit_text(number % 10)
}

/// A number below ten thousand in four digits.
pub open spec fn four_digit_text(number: int) -> Seq<char> {
    two_digit_text(number / 100) + two_digit_text(number % 100)
}

fn digit_str(digit: u32) -> (text: &'static str)
    requires
        digit <= 9,
    ensures
        text@ == digit_text(digit as int),
{
    if digit == 0 {
        "0"
    } else if digit == 1 {
        "1"
    } else if digit == 2 {
        "2"
    } else if digit == 3 {
        "3"
    } else if digit == 4 {
        "4"
    } else if digit == 5 {
        "5"
    } else if digit == 6 {
        "6"
    } else if digit == 7 {
        "7"
    } else if digit == 8 {
        "8"
    } else {
        "9"
    }
}

fn write_two_digits(buffer: &mut String, number: u32)
    requires
        number <= 99,
    ensures
        final(buffer)@ == old(buffer)@ + two_digit_text(number as int),
{
    buffer.append(digit_str(number / 10));
    buffer.append(digit_str(number % 10));
    proof {
        assert(buffer@ =~= old(buffer)@ + two_digit_text(number as int));
    }
}

impl PartitionTime {
    /// Whether the time can be written in the layout of a path: a year of
    /// four digits and a month, day, hour and minute of two.
    pub open spec fn writable(self) -> bool {
        &&& 0 <= self.year <= 9999
        &&& self.month <= 99
        &&& self.day <= 99
        &&& self.hour <= 99
        &&& self.minute <= 99
    }

    /// The part of a path that names this partition:
    /// `date=YYYY-MM-DD/hour=HH/minute=MM`.
    pub open spec fn prefix_text(self) -> Seq<char> {
        "date="@ + four_digit_text(self.year as int) + "-"@ + two_digit_text(self.month as int)
            + "-"@ + two_digit_text(self.day as int) + "/hour="@ + two_digit_text(
            self.hour as int,
        ) + "/minute="@ + two_digit_text(self.minute as int)
    }

    /// Writes the part of a path that names this partition, under which the
    /// files of the partition are grouped; nothing for a time that the
    /// layout cannot hold.
    pub fn prefix(&self) -> (text: Option<String>)
        ensures
            self.writable() ==> (text matches Some(written) && written@ == self.prefix_text()),
            !self.writable() ==> text.is_none(),
    {
        if self.year < 0 || self.year > 9999 || self.month > 99 || self.day > 99 || self.hour > 99
            || self.minute > 99 {
            return None;
        }
        let year: u32 = self.year as u32;
        let mut text = "date=".to_owned();
        write_two_digits(&mut text, year / 100);
        write_two_digits(&mut text, year % 100);
        text.append("-");
        write_two_digits(&mut text, self.month);
        text.append("-");
        write_two_digits(&mut text, self.day);
        text.append("/hour=");
        write_two_digits(&mut text, self.hour);
        text.append("/minute=");
        write_two_digits(&mut text, self.minute);
        proof {
            assert(text@ =~= self.prefix_text());
        }
        Some(text)
    }
}

} // verus!
