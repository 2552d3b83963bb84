//! The log in which agents without a log of their own report what they do: one entry per
//! line, in `.ao/activity.jsonl` of the worktree.

use vstd::prelude::*;
use vstd::utf8::{decode_utf8, valid_utf8};

use crate::calendar::{day_number, days_from_civil};
use crate::lines::{ends_a_line, law_added_line_is_read_last, written, written_lines};
use crate::number::{
    digit_value, digits, is_digit, law_decimal_reads_back, number, parse_digits, parse_unsigned,
    plain, unsigned,
};
use crate::paths::{join_path, path_join};
use crate::text::{chars_of, clone_opt, decimal};
use crate::types::ActivityState;

verus! {

/// For how long an agent's request for help counts, in seconds.
pub const ACTIVITY_INPUT_STALENESS_SECS: u64 = 300;

/// How much of the end of a log is read, in bytes.
pub const TAIL_BYTES: u64 = 4096;

/// One entry of the log.
#[derive(Debug, PartialEq, Eq)]
pub struct ActivityLogEntry {
    pub ts: String,
    pub state: ActivityState,
    pub source: String,
    pub trigger: Option<String>,
}

impl Clone for ActivityLogEntry {
    fn clone(&self) -> (r: Self)
        ensures
            r == *self,
    {
        ActivityLogEntry {
            ts: self.ts.clone(),
            state: self.state,
            source: self.source.clone(),
            trigger: clone_opt(&self.trigger),
        }
    }
}

/// A point in time, since the beginning of 1970.
#[derive(Clone, Copy, Debug, PartialEq, Eq, Structural)]
pub struct Timestamp {
    pub secs: u64,
    pub nanos: u32,
}

/// Where the log of a worktree is.
pub fn activity_log_path(workspace_path: &str) -> (r: String)
    ensures
        r@ == join_path(join_path(workspace_path@, ".ao"@), "activity.jsonl"@),
{
    let dir = path_join(workspace_path, ".ao");
    path_join(dir.as_str(), "activity.jsonl")
}

/// From where on a log of `len` bytes is read.
pub open spec fn tail_start(len: int) -> int {
    if len > TAIL_BYTES {
        len - TAIL_BYTES
    } else {
        0
    }
}

/// From where on a log of `len` bytes is read. Where that is not its beginning, the first
/// line is cut.
pub fn tail_offset(len: u64) -> (r: u64)
    ensures
        r == tail_start(len as int),
{
    if len > TAIL_BYTES {
        len - TAIL_BYTES
    } else {
        0
    }
}

/// `i` is the last line that is an entry.
pub open spec fn last_entry_at(parsed: Seq<Option<ActivityLogEntry>>, i: int) -> bool {
    &&& 0 <= i < parsed.len()
    &&& parsed[i] is Some
    &&& forall|j: int| i < j < parsed.len() ==> (#[trigger] parsed[j]) is None
}

/// The last line that is an entry. `parsed` holds, for each line that was read, the entry
/// that it is; other lines count for nothing.
pub fn read_last_activity_entry(parsed: &Vec<Option<ActivityLogEntry>>) -> (r: Option<
    ActivityLogEntry,
>)
    ensures
        match r {
            Some(e) => exists|i: int|
                last_entry_at(parsed@, i) && (#[trigger] parsed@[i]) == Some(e),
            None => forall|i: int| 0 <= i < parsed@.len() ==> (#[trigger] parsed@[i]) is None,
        },
{
    let mut i: usize = parsed.len();
    while i > 0
        invariant
            i <= parsed.len(),
            forall|j: int| i <= j < parsed@.len() ==> (#[trigger] parsed@[j]) is None,
        decreases i,
    {
        i -= 1;
        if let Some(e) = &parsed[i] {
            assert(last_entry_at(parsed@, i as int));
            assert(parsed@[i as int] == Some(*e));
            return Some(e.clone());
        }
    }
    None
}

/// The whole seconds from `then` to `now`, where `now` is not the earlier.
pub open spec fn age(then: Timestamp, now: Timestamp) -> Option<int> {
    let nanos = (now.secs - then.secs) * 1_000_000_000 + now.nanos - then.nanos;
    if nanos < 0 {
        None
    } else {
        Some(nanos / 1_000_000_000)
    }
}

/// The agent needs a person.
pub open spec fn actionable(state: ActivityState) -> bool {
    state == ActivityState::WaitingInput || state == ActivityState::Blocked
}

/// What an entry says at `now`: that the agent needs a person, unless that is too long ago,
/// lies ahead, or cannot be dated.
pub open spec fn says(entry: ActivityLogEntry, now: Timestamp) -> Option<ActivityState> {
    if !actionable(entry.state) {
        None
    } else {
        match timestamp(entry.ts@) {
            None => None,
            Some(then) => match age(then, now) {
                None => None,
                Some(secs) => if secs <= ACTIVITY_INPUT_STALENESS_SECS {
                    Some(entry.state)
                } else {
                    None
                },
            },
        }
    }
}

/// That an agent has exited holds for good; what else it says holds for a while.
pub open spec fn detected(entry: Option<ActivityLogEntry>, now: Timestamp) -> Option<
    ActivityState,
> {
    match entry {
        None => None,
        Some(e) => if e.state == ActivityState::Exited {
            Some(ActivityState::Exited)
        } else {
            says(e, now)
        },
    }
}

/// Two raised to the power of 64.
pub const MILLIS_MODULUS: u128 = 0x1_0000_0000_0000_0000;

/// The point in time that lies `ms` milliseconds after the beginning of 1970.
pub open spec fn from_millis(ms: int) -> Timestamp {
    Timestamp { secs: (ms / 1000) as u64, nanos: ((ms % 1000) * 1_000_000) as u32 }
}

/// The point in time that a text gives: milliseconds, of which the lowest 64 bits count, or
/// a date in the format of RFC 3339.
pub open spec fn timestamp(s: Seq<char>) -> Option<Timestamp> {
    match unsigned(s) {
        Some(ms) => if ms <= u128::MAX {
            Some(from_millis(ms as int % MILLIS_MODULUS as int))
        } else {
            rfc3339(s)
        },
        None => rfc3339(s),
    }
}

/// The fields of a date and a time of day, before the fraction of the second.
pub struct Fields {
    pub year: nat,
    pub month: nat,
    pub day: nat,
    pub hour: nat,
    pub min: nat,
    pub sec: nat,
}

/// The punctuation of `YYYY-MM-DDTHH:MM:SS`, and at least one more character.
pub open spec fn punctuated(s: Seq<char>) -> bool {
    &&& s.len() >= 20
    &&& s[4] == '-'
    &&& s[7] == '-'
    &&& s[13] == ':'
    &&& s[16] == ':'
    &&& (s[10] == 'T' || s[10] == 't' || s[10] == ' ')
}

/// The fields of `YYYY-MM-DDTHH:MM:SS`, where they are in their ranges.
pub open spec fn fields(s: Seq<char>) -> Option<Fields> {
    match (
        plain(s.subrange(0, 4)),
        plain(s.subrange(5, 7)),
        plain(s.subrange(8, 10)),
        plain(s.subrange(11, 13)),
        plain(s.subrange(14, 16)),
        plain(s.subrange(17, 19)),
    ) {
        (Some(year), Some(month), Some(day), Some(hour), Some(min), Some(sec)) => if 1 <= month
            <= 12 && 1 <= day <= 31 && hour <= 23 && min <= 59 && sec <= 60 {
            Some(Fields { year, month, day, hour, min, sec })
        } else {
            None
        },
        _ => None,
    }
}

/// A character with which a time zone begins.
pub open spec fn zone_mark(c: char) -> bool {
    c == 'Z' || c == 'z' || c == '+' || c == '-'
}

/// How many characters come before the time zone.
pub open spec fn before_zone(s: Seq<char>) -> nat
    decreases s.len(),
{
    if s.len() == 0 || zone_mark(s[0]) {
        0
    } else {
        1 + before_zone(s.skip(1))
    }
}

/// Ten raised to the power of `n`.
pub open spec fn ten_to(n: nat) -> nat
    decreases n,
{
    if n == 0 {
        1
    } else {
        10 * ten_to((n - 1) as nat)
    }
}

/// The nanoseconds of a fraction of up to nine digits, and how many characters it takes up.
/// Without a dot there is none.
pub open spec fn fraction(s: Seq<char>) -> Option<(nat, int)> {
    if s.len() > 0 && s[0] == '.' {
        let n = before_zone(s.skip(1));
        let d = s.subrange(1, 1 + n as int);
        if n <= 9 && digits(d) {
            Some((number(d) * ten_to((9 - n) as nat), 1 + n as int))
        } else {
            None
        }
    } else {
        Some((0, 0))
    }
}

/// The seconds by which a time zone is ahead: none for `Z`, else `+HH:MM` or `-HH:MM`, also
/// without the colon.
pub open spec fn zone(s: Seq<char>) -> Option<int> {
    if s.len() == 1 && (s[0] == 'Z' || s[0] == 'z') {
        Some(0)
    } else if s.len() > 0 && (s[0] == '+' || s[0] == '-') {
        let r = s.skip(1);
        if r.len() == 5 && r[2] == ':' {
            zone_of(s[0] == '+', r.subrange(0, 2), r.subrange(3, 5))
        } else if r.len() == 4 {
            zone_of(s[0] == '+', r.subrange(0, 2), r.subrange(2, 4))
        } else {
            None
        }
    } else {
        None
    }
}

/// The seconds by which a time zone of so many hours and minutes is ahead.
pub open spec fn zone_of(ahead: bool, hours: Seq<char>, minutes: Seq<char>) -> Option<int> {
    match (plain(hours), plain(minutes)) {
        (Some(hh), Some(mm)) => if hh <= 23 && mm <= 59 {
            Some(
                if ahead {
                    (hh * 3600 + mm * 60) as int
                } else {
                    -(hh * 3600 + mm * 60)
                },
            )
        } else {
            None
        },
        _ => None,
    }
}

/// The seconds from the beginning of 1970 to the given date and time of day.
pub open spec fn seconds(f: Fields, ahead: int) -> int {
    day_number(f.year as int, f.month as int, f.day as int) * 86400 + f.hour * 3600 + f.min * 60 + f.sec
        - ahead
}

/// The point in time that `YYYY-MM-DDTHH:MM:SS[.frac](Z|+HH:MM|-HH:MM|+HHMM|-HHMM)` gives, if
/// it is not before 1970.
pub open spec fn rfc3339(s: Seq<char>) -> Option<Timestamp> {
    if !punctuated(s) {
        None
    } else {
        match (fields(s), fraction(s.skip(19))) {
            (Some(f), Some((nanos, taken))) => match zone(s.skip(19 + taken)) {
                Some(ahead) => if seconds(f, ahead) >= 0 {
                    Some(Timestamp { secs: seconds(f, ahead) as u64, nanos: nanos as u32 })
                } else {
                    None
                },
                None => None,
            },
            _ => None,
        }
    }
}

proof fn lemma_number_bound(s: Seq<char>)
    requires
        digits(s) || s.len() == 0,
    ensures
        number(s) < ten_to(s.len()),
    decreases s.len(),
{
    if s.len() > 1 {
        assert(is_digit(s[s.len() - 1]));
        assert(digits(s.drop_last()));
        lemma_number_bound(s.drop_last());
        assert(digit_value(s.last()) <= 9);
        assert(ten_to(s.len()) == 10 * ten_to(s.drop_last().len()));
    } else if s.len() == 1 {
        assert(digit_value(s.last()) <= 9);
        assert(number(s.drop_last()) == 0);
        assert(is_digit(s[0]));
        assert(s.drop_last() =~= Seq::empty());
        assert(ten_to(1) == 10) by {
            reveal_with_fuel(ten_to, 2);
        }
    }
}

/// The number that at most nine digits of `v` stand for.
fn parse_plain_in(v: &Vec<char>, from: usize, to: usize) -> (r: Option<u32>)
    requires
        from <= to <= v.len(),
        to - from <= 9,
    ensures
        match (plain(v@.subrange(from as int, to as int)), r) {
            (Some(n), Some(m)) => n == m && n < ten_to((to - from) as nat),
            (None, None) => true,
            _ => false,
        },
{
    let ghost s = v@.subrange(from as int, to as int);
    proof {
        reveal_with_fuel(ten_to, 10);
        if digits(s) {
            lemma_number_bound(s);
            lemma_ten_grows(s.len(), 9);
        }
    }
    match parse_digits(v, from, to) {
        Some(n) => Some(n as u32),
        None => None,
    }
}

proof fn lemma_ten_grows(a: nat, b: nat)
    requires
        a <= b,
    ensures
        0 < ten_to(a) <= ten_to(b),
    decreases b,
{
    if a < b {
        lemma_ten_grows(a, (b - 1) as nat);
    } else if a > 0 {
        lemma_ten_grows((a - 1) as nat, (b - 1) as nat);
    }
}

/// Ten raised to the power of `n`.
fn power_of_ten(n: u32) -> (r: u64)
    requires
        n <= 9,
    ensures
        r == ten_to(n as nat),
{
    let mut r: u64 = 1;
    for i in 0..n
        invariant
            n <= 9,
            r == ten_to(i as nat),
    {
        proof {
            lemma_ten_grows((i + 1) as nat, 9);
            reveal_with_fuel(ten_to, 10);
        }
        r = r * 10;
    }
    r
}

/// The place of the first character from `from` on with which a time zone begins, or the end.
fn find_zone(v: &Vec<char>, from: usize) -> (r: usize)
    requires
        from <= v.len(),
    ensures
        r == from + before_zone(v@.skip(from as int)),
        r <= v.len(),
{
    let mut i: usize = from;
    while i < v.len() && !(v[i] == 'Z' || v[i] == 'z' || v[i] == '+' || v[i] == '-')
        invariant
            from <= i <= v.len(),
            before_zone(v@.skip(from as int)) == (i - from) + before_zone(v@.skip(i as int)),
        decreases v.len() - i,
    {
        assert(v@.skip(i as int).skip(1) =~= v@.skip(i + 1));
        i += 1;
    }
    i
}

/// The nanoseconds of the fraction that begins at `at`, and the place after it.
fn parse_fraction(v: &Vec<char>, at: usize) -> (r: Option<(u32, usize)>)
    requires
        at <= v.len(),
    ensures
        match (fraction(v@.skip(at as int)), r) {
            (Some((nanos, taken)), Some((n, next))) => nanos == n && next == at + taken && next
                <= v.len(),
            (None, None) => true,
            _ => false,
        },
{
    if at == v.len() || v[at] != '.' {
        return Some((0, at));
    }
    let ghost s = v@.skip(at as int);
    assert(s[0] == '.');
    assert(s.skip(1) =~= v@.skip(at + 1));
    let end = find_zone(v, at + 1);
    let len: usize = end - (at + 1);
    assert(s.subrange(1, 1 + len as int) =~= v@.subrange(at + 1, end as int));
    if len > 9 {
        return None;
    }
    let ghost d = v@.subrange(at + 1, end as int);
    proof {
        if digits(d) {
            lemma_number_bound(d);
            lemma_ten_grows(d.len(), 9);
            reveal_with_fuel(ten_to, 10);
        }
    }
    match parse_digits(v, at + 1, end) {
        None => None,
        Some(n) => {
            let scale = power_of_ten(9 - len as u32);
            proof {
                lemma_ten_product(len as nat);
                assert(number(d) * ten_to((9 - len) as nat) < 1_000_000_000) by (nonlinear_arith)
                    requires
                        number(d) < ten_to(len as nat),
                        ten_to(len as nat) * ten_to((9 - len) as nat) == 1_000_000_000,
                        ten_to((9 - len) as nat) > 0,
                ;
            }
            Some(((n as u64 * scale) as u32, end))
        },
    }
}

proof fn lemma_ten_product(n: nat)
    requires
        n <= 9,
    ensures
        ten_to(n) * ten_to((9 - n) as nat) == 1_000_000_000,
        ten_to((9 - n) as nat) > 0,
    decreases n,
{
    lemma_ten_grows((9 - n) as nat, 9);
    if n == 0 {
        reveal_with_fuel(ten_to, 10);
        assert(ten_to(0) == 1);
        let b = ten_to(9);
        assert(1 * b == 1_000_000_000);
    } else {
        lemma_ten_product((n - 1) as nat);
        let a = ten_to((n - 1) as nat);
        let b = ten_to((9 - n) as nat);
        assert(ten_to(n) == 10 * a);
        assert(ten_to((9 - (n - 1)) as nat) == 10 * b);
        assert((10 * a) * b == 1_000_000_000) by (nonlinear_arith)
            requires
                a * (10 * b) == 1_000_000_000,
        ;
    }
}

/// The seconds by which a time zone of so many hours and minutes is ahead; the hours stand
/// at `hours` and the minutes at `minutes`.
fn parse_zone_of(v: &Vec<char>, ahead: bool, hours: usize, minutes: usize) -> (r: Option<i64>)
    requires
        hours + 2 <= v.len(),
        minutes + 2 <= v.len(),
    ensures
        match (
            zone_of(
                ahead,
                v@.subrange(hours as int, hours + 2),
                v@.subrange(minutes as int, minutes + 2),
            ),
            r,
        ) {
            (Some(a), Some(b)) => a == b && -86400 < a < 86400,
            (None, None) => true,
            _ => false,
        },
{
    let hh = parse_plain_in(v, hours, hours + 2);
    let mm = parse_plain_in(v, minutes, minutes + 2);
    match (hh, mm) {
        (Some(hh), Some(mm)) => {
            if hh > 23 || mm > 59 {
                return None;
            }
            let secs: i64 = hh as i64 * 3600 + mm as i64 * 60;
            Some(
                if ahead {
                    secs
                } else {
                    -secs
                },
            )
        },
        _ => None,
    }
}

/// The seconds by which the time zone that stands at `at` is ahead.
fn parse_zone(v: &Vec<char>, at: usize) -> (r: Option<i64>)
    requires
        at <= v.len(),
    ensures
        match (zone(v@.skip(at as int)), r) {
            (Some(a), Some(b)) => a == b && -86400 < a < 86400,
            (None, None) => true,
            _ => false,
        },
{
    let ghost s = v@.skip(at as int);
    let n: usize = v.len() - at;
    if n == 0 {
        return None;
    }
    let c: char = v[at];
    assert(s[0] == c);
    if n == 1 && (c == 'Z' || c == 'z') {
        return Some(0);
    }
    if c != '+' && c != '-' {
        return None;
    }
    let ghost r = s.skip(1);
    if n == 6 && v[at + 3] == ':' {
        assert(r[2] == ':');
        assert(r.subrange(0, 2) =~= v@.subrange(at + 1, at + 3));
        assert(r.subrange(3, 5) =~= v@.subrange(at + 4, at + 6));
        parse_zone_of(v, c == '+', at + 1, at + 4)
    } else if n == 5 {
        assert(r.subrange(0, 2) =~= v@.subrange(at + 1, at + 3));
        assert(r.subrange(2, 4) =~= v@.subrange(at + 3, at + 5));
        parse_zone_of(v, c == '+', at + 1, at + 3)
    } else {
        assert(n == 6 ==> r[2] == v@[at + 3]);
        None
    }
}

/// The number that the two digits of `v` from `from` on stand for, if it is in the range.
fn parse_field(v: &Vec<char>, from: usize, low: u32, high: u32) -> (r: Option<u32>)
    requires
        from + 2 <= v.len(),
    ensures
        match (plain(v@.subrange(from as int, from + 2)), r) {
            (Some(n), Some(m)) => n == m && low <= n <= high,
            (Some(n), None) => !(low <= n <= high),
            (None, m) => m is None,
        },
{
    match parse_plain_in(v, from, from + 2) {
        Some(n) => if low <= n && n <= high {
            Some(n)
        } else {
            None
        },
        None => None,
    }
}

proof fn lemma_years_bounded(y: int, m: int, d: int)
    requires
        -10000 <= y <= 10000,
        1 <= m <= 12,
        1 <= d <= 31,
    ensures
        -5_000_000 < day_number(y, m, d) < 5_000_000,
{
    reveal_with_fuel(crate::calendar::month_start, 13);
}

/// The point in time that a date in the format of RFC 3339 gives. The date and the time of
/// day may be separated by a `T` or a blank; a time before 1970 is not accepted.
pub fn parse_rfc3339(text: &str) -> (r: Option<Timestamp>)
    ensures
        r == rfc3339(text@),
{
    let v = chars_of(text);
    if v.len() < 20 {
        return None;
    }
    if v[4] != '-' || v[7] != '-' || v[13] != ':' || v[16] != ':' {
        return None;
    }
    if v[10] != 'T' && v[10] != 't' && v[10] != ' ' {
        return None;
    }
    let year = parse_plain_in(&v, 0, 4);
    let month = parse_field(&v, 5, 1, 12);
    let day = parse_field(&v, 8, 1, 31);
    let hour = parse_field(&v, 11, 0, 23);
    let min = parse_field(&v, 14, 0, 59);
    let sec = parse_field(&v, 17, 0, 60);
    match (year, month, day, hour, min, sec) {
        (Some(year), Some(month), Some(day), Some(hour), Some(min), Some(sec)) => {
            proof {
                reveal_with_fuel(ten_to, 5);
                lemma_years_bounded(year as int, month as int, day as int);
            }
            let (nanos, next) = match parse_fraction(&v, 19) {
                Some(f) => f,
                None => {
                    return None;
                },
            };
            let ahead: i64 = match parse_zone(&v, next) {
                Some(ahead) => ahead,
                None => {
                    return None;
                },
            };
            let days: i64 = days_from_civil(year as i32, month, day);
            let total: i64 = days * 86400 + (hour as i64 * 3600 + min as i64 * 60 + sec as i64)
                - ahead;
            if total < 0 {
                None
            } else {
                Some(Timestamp { secs: total as u64, nanos })
            }
        },
        _ => None,
    }
}

proof fn lemma_before_zone(d: Seq<char>, z: Seq<char>)
    requires
        digits(d) || d.len() == 0,
        z.len() > 0,
        zone_mark(z[0]),
    ensures
        before_zone(d + z) == d.len(),
    decreases d.len(),
{
    if d.len() == 0 {
        assert(d + z =~= z);
    } else {
        assert(is_digit(d[0]));
        assert((d + z).skip(1) =~= d.skip(1) + z);
        assert(d.len() > 1 ==> digits(d.skip(1)));
        lemma_before_zone(d.skip(1), z);
    }
}

/// A fraction, or nothing.
spec fn fractional(d: Seq<char>) -> bool {
    d.len() == 0 || (d[0] == '.' && 2 <= d.len() <= 10 && digits(d.skip(1)))
}

proof fn lemma_fraction(d: Seq<char>, z: Seq<char>, y: Seq<char>)
    requires
        fractional(d),
        z.len() > 0,
        zone_mark(z[0]),
        y.len() > 0,
        zone_mark(y[0]),
    ensures
        fraction(d + z) == fraction(d + y),
        fraction(d + z) matches Some((_, taken)) && taken == d.len(),
        (d + z).skip(d.len() as int) == z,
{
    assert((d + z).skip(d.len() as int) =~= z);
    if d.len() == 0 {
        assert(d + z =~= z);
        assert(d + y =~= y);
    } else {
        let e = d.skip(1);
        lemma_before_zone(e, z);
        lemma_before_zone(e, y);
        assert((d + z).skip(1) =~= e + z);
        assert((d + y).skip(1) =~= e + y);
        assert((d + z).subrange(1, 1 + e.len() as int) =~= e);
        assert((d + y).subrange(1, 1 + e.len() as int) =~= e);
    }
}

proof fn lemma_before_zone_stops(s: Seq<char>)
    ensures
        before_zone(s) <= s.len(),
        before_zone(s) < s.len() ==> zone_mark(s[before_zone(s) as int]),
    decreases s.len(),
{
    if s.len() > 0 && !zone_mark(s[0]) {
        lemma_before_zone_stops(s.skip(1));
    }
}

/// What comes before the `Z` of a date that can be read is nothing but a fraction.
proof fn lemma_only_fraction(d: Seq<char>)
    requires
        fraction(d.push('Z')) matches Some((_, taken)) && zone(d.push('Z').skip(taken)) is Some,
    ensures
        fractional(d),
{
    let s = d.push('Z');
    let taken = (fraction(s)->0).1;
    let rest = s.skip(taken);
    lemma_before_zone_stops(s.skip(1));
    assert(rest.len() > 0 ==> rest.last() == 'Z');
    assert(!is_digit('Z'));
    if rest.len() > 1 {
        let r = rest.skip(1);
        assert(r.last() == 'Z');
        if r.len() == 5 {
            assert(r.subrange(3, 5)[1] == 'Z');
        } else if r.len() == 4 {
            assert(r.subrange(2, 4)[1] == 'Z');
        }
    }
    assert(rest.len() == 1);
    if d.len() > 0 {
        assert(s[0] == d[0]);
        assert(s.subrange(1, taken) =~= d.skip(1));
    }
}

/// The zone of `hours` and `minutes`, after the given sign, with or without a colon.
pub open spec fn zone_text(
    sign: Seq<char>,
    hours: Seq<char>,
    colon: bool,
    minutes: Seq<char>,
) -> Seq<char> {
    sign + hours + (if colon {
        ":"@
    } else {
        Seq::empty()
    }) + minutes
}

proof fn lemma_zone_text(sign: Seq<char>, hours: Seq<char>, colon: bool, minutes: Seq<char>)
    requires
        sign == "+"@ || sign == "-"@,
        hours.len() == 2,
        minutes.len() == 2,
    ensures
        ({
            let z = zone_text(sign, hours, colon, minutes);
            &&& z.len() > 0
            &&& z[0] == sign[0]
            &&& zone_mark(z[0])
            &&& zone(z) == zone_of(sign == "+"@, hours, minutes)
        }),
{
    reveal_strlit("+");
    reveal_strlit("-");
    reveal_strlit(":");
    let z = zone_text(sign, hours, colon, minutes);
    let r = z.skip(1);
    assert(z[0] == sign[0]);
    assert("+"@[0] != "-"@[0]);
    assert(r.subrange(0, 2) =~= hours);
    if colon {
        assert(r.len() == 5 && r[2] == ':');
        assert(r.subrange(3, 5) =~= minutes);
    } else {
        assert(r.len() == 4);
        assert(r.subrange(2, 4) =~= minutes);
    }
}

proof fn lemma_zone_moves(s: Seq<char>, z: Seq<char>)
    requires
        rfc3339(s.push('Z')) is Some,
        z.len() > 0,
        zone_mark(z[0]),
    ensures
        ({
            let t = rfc3339(s.push('Z'))->0;
            rfc3339(s + z) == match zone(z) {
                Some(ahead) => if t.secs - ahead >= 0 {
                    Some(Timestamp { secs: (t.secs - ahead) as u64, nanos: t.nanos })
                } else {
                    None
                },
                None => None,
            }
        }),
{
    let a = s.push('Z');
    let b = s + z;
    let d = s.skip(19);
    let y = seq!['Z'];
    assert(a.skip(19) =~= d.push('Z'));
    assert(d.push('Z') =~= d + y);
    assert(b.skip(19) =~= d + z);
    let taken = (fraction(a.skip(19))->0).1;
    assert(a.skip(19 + taken) =~= a.skip(19).skip(taken)) by {
        lemma_before_zone_stops(a.skip(19).skip(1));
    }
    lemma_only_fraction(d);
    lemma_fraction(d, y, z);
    lemma_fraction(d, z, y);
    assert(b.skip(19 + d.len() as int) =~= z);
    assert(a.skip(19 + d.len() as int) =~= y);
    assert(a.subrange(0, 4) =~= b.subrange(0, 4));
    assert(a.subrange(5, 7) =~= b.subrange(5, 7));
    assert(a.subrange(8, 10) =~= b.subrange(8, 10));
    assert(a.subrange(11, 13) =~= b.subrange(11, 13));
    assert(a.subrange(14, 16) =~= b.subrange(14, 16));
    assert(a.subrange(17, 19) =~= b.subrange(17, 19));
    let f = fields(a)->0;
    lemma_number_bound(a.subrange(0, 4));
    reveal_with_fuel(ten_to, 5);
    lemma_years_bounded(f.year as int, f.month as int, f.day as int);
}

/// A time zone shifts a time by its offset: one that is behind makes it later, and one that is
/// ahead earlier, as long as it is not before 1970. With and without its colon it means the
/// same, and so do `Z` and `z`.
pub proof fn law_zones_shift(s: Seq<char>, hours: Seq<char>, colon: bool, minutes: Seq<char>)
    requires
        rfc3339(s + "Z"@) is Some,
        hours.len() == 2 && digits(hours) && number(hours) <= 23,
        minutes.len() == 2 && digits(minutes) && number(minutes) <= 59,
    ensures
        ({
            let t = rfc3339(s + "Z"@)->0;
            let off = number(hours) * 3600 + number(minutes) * 60;
            &&& t.secs + off <= u64::MAX
            &&& rfc3339(s + zone_text("-"@, hours, colon, minutes)) == Some(
                Timestamp { secs: (t.secs + off) as u64, nanos: t.nanos },
            )
            &&& rfc3339(s + zone_text("+"@, hours, colon, minutes)) == if t.secs >= off {
                Some(Timestamp { secs: (t.secs - off) as u64, nanos: t.nanos })
            } else {
                None
            }
            &&& rfc3339(s + "z"@) == Some(t)
        }),
{
    reveal_strlit("Z");
    reveal_strlit("z");
    reveal_strlit("+");
    reveal_strlit("-");
    assert(s + "Z"@ =~= s.push('Z'));
    assert("+"@[0] != "-"@[0]);
    lemma_zone_text("-"@, hours, colon, minutes);
    lemma_zone_text("+"@, hours, colon, minutes);
    lemma_zone_moves(s, zone_text("-"@, hours, colon, minutes));
    lemma_zone_moves(s, zone_text("+"@, hours, colon, minutes));
    lemma_zone_moves(s, "z"@);
    lemma_late_enough(s.push('Z'));
}

/// A date has four digits for its year, so that no time is too large to be shifted.
proof fn lemma_late_enough(s: Seq<char>)
    ensures
        rfc3339(s) matches Some(t) ==> t.secs < 1_000_000_000_000,
{
    if let Some(t) = rfc3339(s) {
        let f = fields(s)->0;
        let taken = (fraction(s.skip(19))->0).1;
        let z = s.skip(19 + taken);
        lemma_number_bound(s.subrange(0, 4));
        reveal_with_fuel(ten_to, 5);
        lemma_years_bounded(f.year as int, f.month as int, f.day as int);
        assert(-86400 < zone(z)->0 < 86400);
    }
}

/// The point in time that the entry of a log gives, as milliseconds or as a date.
pub fn chrono_like_parse(s: &str) -> (r: Option<Timestamp>)
    ensures
        r == timestamp(s@),
{
    match parse_unsigned(s, u128::MAX) {
        Some(ms) => {
            let low: u64 = (ms % MILLIS_MODULUS) as u64;
            Some(Timestamp { secs: low / 1000, nanos: ((low % 1000) * 1_000_000) as u32 })
        },
        None => parse_rfc3339(s),
    }
}

/// What an entry says at `now`, if it is that the agent needs a person and not too long ago.
pub fn check_actionable_state(entry: Option<&ActivityLogEntry>, now: Timestamp) -> (r: Option<
    ActivityState,
>)
    ensures
        r == match entry {
            Some(e) => says(*e, now),
            None => None,
        },
{
    let e = match entry {
        Some(e) => e,
        None => {
            return None;
        },
    };
    if !matches!(e.state, ActivityState::WaitingInput | ActivityState::Blocked) {
        return None;
    }
    let then = match chrono_like_parse(e.ts.as_str()) {
        Some(then) => then,
        None => {
            return None;
        },
    };
    let a: i128 = then.secs as i128 * 1_000_000_000 + then.nanos as i128;
    let b: i128 = now.secs as i128 * 1_000_000_000 + now.nanos as i128;
    if b < a {
        return None;
    }
    let secs: i128 = (b - a) / 1_000_000_000;
    if secs <= ACTIVITY_INPUT_STALENESS_SECS as i128 {
        Some(e.state)
    } else {
        None
    }
}

/// What the log says at `now`. `parsed` holds, for each line that was read, the entry that it
/// is. The last entry counts: that the agent has exited holds for good, that it needs a
/// person for a while, and anything else says nothing.
pub fn detect_activity_from_log(parsed: &Vec<Option<ActivityLogEntry>>, now: Timestamp) -> (r:
    Option<ActivityState>)
    ensures
        forall|i: int|
            last_entry_at(parsed@, i) ==> r == detected(#[trigger] parsed@[i], now),
        (forall|i: int| 0 <= i < parsed@.len() ==> (#[trigger] parsed@[i]) is None) ==> r is None,
{
    match read_last_activity_entry(parsed) {
        None => None,
        Some(e) => if e.state == ActivityState::Exited {
            Some(ActivityState::Exited)
        } else {
            check_actionable_state(Some(&e), now)
        },
    }
}

/// A request for help is heard for as long as it is fresh, and never again after that.
pub proof fn law_requests_grow_stale(entry: ActivityLogEntry, now: Timestamp, later: Timestamp)
    requires
        says(entry, now) is None,
        timestamp(entry.ts@) matches Some(then) && age(then, now) is Some,
        age(now, later) is Some,
    ensures
        says(entry, later) is None,
{
}

/// An entry that was just added to a log of whole lines is the one that is read, however long
/// the log is, as long as its line is shorter than what is read of the end of a log. `parsed`
/// holds, for each line that is read, the entry that it is.
pub proof fn law_added_entry_is_read(
    log: Seq<u8>,
    line: Seq<u8>,
    parsed: Seq<Option<ActivityLogEntry>>,
    entry: ActivityLogEntry,
)
    requires
        valid_utf8(log),
        ends_a_line(log),
        valid_utf8(line),
        !line.contains(10),
        line.len() > 0 ==> line.last() != 13,
        line.len() + 1 < TAIL_BYTES,
        written(decode_utf8(line)),
        ({
            let all = log + line.push(10);
            let from = tail_start(all.len() as int);
            let read = written_lines(all.skip(from), from > 0);
            &&& parsed.len() == read.len()
            &&& forall|i: int|
                0 <= i < read.len() && #[trigger] read[i] == decode_utf8(line) ==> parsed[i]
                    == Some(entry)
        }),
    ensures
        last_entry_at(parsed, parsed.len() - 1),
        parsed.last() == Some(entry),
{
    let all = log + line.push(10);
    let from = tail_start(all.len() as int);
    law_added_line_is_read_last(log, line, from);
    let read = written_lines(all.skip(from), from > 0);
    assert(read[read.len() - 1] == decode_utf8(line));
}

/// An agent that says that it waits for input, or is blocked, is heard for five minutes; what it
/// says cannot lie ahead.
pub proof fn law_requests_for_help_are_heard(
    entry: ActivityLogEntry,
    then: Timestamp,
    now: Timestamp,
)
    requires
        timestamp(entry.ts@) == Some(then),
        then.nanos < 1_000_000_000,
        now.nanos < 1_000_000_000,
    ensures
        ({
            let before = then.secs * 1_000_000_000 + then.nanos;
            let after = now.secs * 1_000_000_000 + now.nanos;
            let asks = entry.state == ActivityState::WaitingInput || entry.state
                == ActivityState::Blocked;
            &&& asks && before <= after < before + 301 * 1_000_000_000 ==> says(entry, now) == Some(
                entry.state,
            )
            &&& !asks || after < before || after >= before + 301 * 1_000_000_000 ==> says(entry, now)
                is None
        }),
{
}

/// Whatever the time, an agent that has exited has exited, and one that says nothing that asks for
/// a person says nothing.
pub proof fn law_exited_agents_stay_so(entry: ActivityLogEntry, now: Timestamp)
    ensures
        entry.state == ActivityState::Exited ==> detected(Some(entry), now) == Some(
            ActivityState::Exited,
        ),
        entry.state == ActivityState::Active || entry.state == ActivityState::Ready || entry.state
            == ActivityState::Idle ==> detected(Some(entry), now) is None,
        detected(None, now) is None,
        entry.state == ActivityState::WaitingInput || entry.state == ActivityState::Blocked
            ==> detected(Some(entry), now) == says(entry, now),
{
}

/// A number is a time in milliseconds.
pub proof fn law_numbers_are_milliseconds(ms: nat)
    requires
        ms <= u64::MAX,
    ensures
        timestamp(decimal(ms)) == Some(
            Timestamp { secs: (ms / 1000) as u64, nanos: ((ms % 1000) * 1_000_000) as u32 },
        ),
{
    law_decimal_reads_back(ms);
}

/// A date and a time of day, as `YYYY-MM-DDTHH:MM:SSZ`.
pub open spec fn date_text(
    year: Seq<char>,
    month: Seq<char>,
    day: Seq<char>,
    hour: Seq<char>,
    min: Seq<char>,
    sec: Seq<char>,
) -> Seq<char> {
    year + "-"@ + month + "-"@ + day + "T"@ + hour + ":"@ + min + ":"@ + sec + "Z"@
}

/// A date and a time of day are read as the seconds since 1970: so many whole days, hours, minutes
/// and seconds. A date with a month, a day or a time that there is not cannot be read.
pub proof fn law_dates_count_seconds(
    year: Seq<char>,
    month: Seq<char>,
    day: Seq<char>,
    hour: Seq<char>,
    min: Seq<char>,
    sec: Seq<char>,
)
    requires
        year.len() == 4 && digits(year) && number(year) >= 1970,
        month.len() == 2 && digits(month),
        day.len() == 2 && digits(day),
        hour.len() == 2 && digits(hour),
        min.len() == 2 && digits(min),
        sec.len() == 2 && digits(sec),
    ensures
        ({
            let valid = 1 <= number(month) <= 12 && 1 <= number(day) <= 31 && number(hour) < 24
                && number(min) < 60 && number(sec) <= 60;
            let s = day_number(number(year) as int, number(month) as int, number(day) as int)
                * 86400 + number(hour) * 3600 + number(min) * 60 + number(sec);
            &&& valid && s >= 0 ==> rfc3339(date_text(year, month, day, hour, min, sec)) == Some(
                Timestamp { secs: s as u64, nanos: 0 },
            )
            &&& !valid ==> rfc3339(date_text(year, month, day, hour, min, sec)) is None
        }),
{
    reveal_strlit("-");
    reveal_strlit("T");
    reveal_strlit(":");
    reveal_strlit("Z");
    let s = date_text(year, month, day, hour, min, sec);
    assert(s.len() == 20);
    assert(s.subrange(0, 4) =~= year);
    assert(s.subrange(5, 7) =~= month);
    assert(s.subrange(8, 10) =~= day);
    assert(s.subrange(11, 13) =~= hour);
    assert(s.subrange(14, 16) =~= min);
    assert(s.subrange(17, 19) =~= sec);
    assert(s[4] == '-' && s[7] == '-' && s[10] == 'T' && s[13] == ':' && s[16] == ':');
    assert(s.skip(19) =~= seq!['Z']);
}

/// Of a log up to four kilobytes are read, all of them from its end.
pub proof fn law_the_end_of_a_log_is_read(len: int)
    requires
        len >= 0,
    ensures
        len <= 4096 ==> tail_start(len) == 0,
        len > 4096 ==> len - tail_start(len) == 4096,
{
}

} // verus!
