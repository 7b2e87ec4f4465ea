//! Resolution of the "posted at" stamps of a results page. A stamp is either
//! relative ("tänään 12:34", "eilen 12:34") or a day and a short Finnish month
//! name without a year ("21 huh 19:52"); both are read in the visitor's zone,
//! against the moment the page was fetched.
use crate::utils::is_normal;
use crate::utils::is_ws;
use crate::utils::lemma_normal_unchanged;
use crate::utils::normalize;
use crate::utils::reformat_ws;
use crate::zone::date_of;
use crate::zone::day_before;
use crate::zone::instant_in_zone;
use crate::zone::local_time_in_zone;
use crate::zone::days_in_month;
use crate::zone::names_a_reading;
use crate::zone::previous_day;
use crate::zone::zone_instant_of;
use crate::zone::zone_local_of;
use crate::zone::LocalDate;
use crate::zone::LocalDateTime;
use crate::zone::ZoneReading;
use chrono::Timelike;
use vstd::prelude::*;

verus! {

/// Why a stamp could not be resolved.
#[derive(Debug, Clone, PartialEq, Eq)]
pub enum ParseError {
    /// The text fits neither stamp form.
    InvalidHighlevelStructure(String),
    /// The day token is not a number from 1 to 31.
    InvalidDay(String),
    /// The time token is not a valid `HH:MM`.
    InvalidTime(String),
    /// The month token is none of the twelve short month names.
    InvalidMonth(String),
    /// The relative-day word is neither "tänään" nor "eilen".
    InvalidRelativeDay(String),
    /// The local reading names no single instant in the zone.
    ArithmeticProblem,
}

/// [`ParseError`] with its texts as character sequences.
pub enum ParseErrorView {
    InvalidHighlevelStructure(Seq<char>),
    InvalidDay(Seq<char>),
    InvalidTime(Seq<char>),
    InvalidMonth(Seq<char>),
    InvalidRelativeDay(Seq<char>),
    ArithmeticProblem,
}

impl View for ParseError {
    type V = ParseErrorView;

    open spec fn view(&self) -> ParseErrorView {
        match self {
            ParseError::InvalidHighlevelStructure(s) => ParseErrorView::InvalidHighlevelStructure(
                s@,
            ),
            ParseError::InvalidDay(s) => ParseErrorView::InvalidDay(s@),
            ParseError::InvalidTime(s) => ParseErrorView::InvalidTime(s@),
            ParseError::InvalidMonth(s) => ParseErrorView::InvalidMonth(s@),
            ParseError::InvalidRelativeDay(s) => ParseErrorView::InvalidRelativeDay(s@),
            ParseError::ArithmeticProblem => ParseErrorView::ArithmeticProblem,
        }
    }
}

pub type ParseResult<T> = Result<T, ParseError>;

/// A result of stamp resolution with its error viewed.
pub open spec fn result_view<T>(r: Result<T, ParseError>) -> Result<T, ParseErrorView> {
    match r {
        Ok(v) => Ok(v),
        Err(e) => Err(e@),
    }
}

/// An hour and a minute of the day.
#[derive(Clone, Copy, Debug, PartialEq, Eq)]
pub struct TimeOfDay {
    pub hour: u32,
    pub minute: u32,
}

pub open spec fn is_digit(c: char) -> bool {
    '0' <= c <= '9'
}

pub open spec fn is_letter(c: char) -> bool {
    ('a' <= c <= 'z') || ('A' <= c <= 'Z')
}

pub open spec fn all_digits(s: Seq<char>) -> bool {
    forall|i: int| 0 <= i < s.len() ==> is_digit(#[trigger] s[i])
}

/// The value of a string of decimal digits.
pub open spec fn decimal(s: Seq<char>) -> nat
    decreases s.len(),
{
    if s.len() == 0 {
        0
    } else {
        (decimal(s.drop_last()) * 10 + (s.last() as int - '0' as int)) as nat
    }
}

/// What `u32::from_str` followed by the 1-31 bound makes of a day token: an
/// optional `+` and then decimal digits.
pub open spec fn day_number(s: Seq<char>) -> Option<u32> {
    let d = if s.len() > 0 && s[0] == '+' {
        s.drop_first()
    } else {
        s
    };
    if d.len() > 0 && all_digits(d) && 1 <= decimal(d) <= 31 {
        Some(decimal(d) as u32)
    } else {
        None
    }
}

/// The ordinal of a short Finnish month name.
pub open spec fn month_number(s: Seq<char>) -> Option<u32> {
    if s == seq!['t', 'a', 'm'] {
        Some(1)
    } else if s == seq!['h', 'e', 'l'] {
        Some(2)
    } else if s == seq!['m', 'a', 'a'] {
        Some(3)
    } else if s == seq!['h', 'u', 'h'] {
        Some(4)
    } else if s == seq!['t', 'o', 'u'] {
        Some(5)
    } else if s == seq!['k', 'e', 's'] {
        Some(6)
    } else if s == seq!['h', 'e', 'i'] {
        Some(7)
    } else if s == seq!['e', 'l', 'o'] {
        Some(8)
    } else if s == seq!['s', 'y', 'y'] {
        Some(9)
    } else if s == seq!['l', 'o', 'k'] {
        Some(10)
    } else if s == seq!['m', 'a', 'r'] {
        Some(11)
    } else if s == seq!['j', 'o', 'u'] {
        Some(12)
    } else {
        None
    }
}

/// The time of day that `HH:MM` names, with hours 00-23 and minutes 00-59.
pub open spec fn time_of_day(s: Seq<char>) -> Option<TimeOfDay> {
    if s.len() == 5 && s[2] == ':' && all_digits(s.take(2)) && all_digits(s.skip(3))
        && decimal(s.take(2)) < 24 && decimal(s.skip(3)) < 60 {
        Some(TimeOfDay { hour: decimal(s.take(2)) as u32, minute: decimal(s.skip(3)) as u32 })
    } else {
        None
    }
}

/// Two digits, a colon and two digits.
pub open spec fn time_shaped(s: Seq<char>) -> bool {
    &&& s.len() == 5
    &&& is_digit(s[0]) && is_digit(s[1])
    &&& s[2] == ':'
    &&& is_digit(s[3]) && is_digit(s[4])
}

/// "tänään", today.
pub open spec fn today_word() -> Seq<char> {
    seq!['t', 'ä', 'n', 'ä', 'ä', 'n']
}

/// "eilen", yesterday.
pub open spec fn yesterday_word() -> Seq<char> {
    seq!['e', 'i', 'l', 'e', 'n']
}

/// The tokens of a stamp, by form.
#[derive(Debug, Clone, PartialEq, Eq)]
pub enum Stamp {
    Relative { day: String, time: String },
    Absolute { day: String, month: String, time: String },
}

/// [`Stamp`] with its tokens as character sequences.
pub enum StampView {
    Relative { day: Seq<char>, time: Seq<char> },
    Absolute { day: Seq<char>, month: Seq<char>, time: Seq<char> },
}

impl View for Stamp {
    type V = StampView;

    open spec fn view(&self) -> StampView {
        match self {
            Stamp::Relative { day, time } => StampView::Relative { day: day@, time: time@ },
            Stamp::Absolute { day, month, time } => StampView::Absolute {
                day: day@,
                month: month@,
                time: time@,
            },
        }
    }
}

/// The grammar of stamps in normal form (see [`crate::utils::normalize`]):
/// `<relday> <HH:MM>` with relday "tänään" or "eilen", or `<day> <mon> <HH:MM>`
/// with one or two day digits and three ASCII letters. Anything else has no
/// form.
pub open spec fn stamp_of(t: Seq<char>) -> Option<StampView> {
    if t.len() == 12 && t.take(6) == today_word() && t[6] == ' ' && time_shaped(t.skip(7)) {
        Some(StampView::Relative { day: t.take(6), time: t.skip(7) })
    } else if t.len() == 11 && t.take(5) == yesterday_word() && t[5] == ' ' && time_shaped(
        t.skip(6),
    ) {
        Some(StampView::Relative { day: t.take(5), time: t.skip(6) })
    } else if t.len() == 11 && is_digit(t[0]) && t[1] == ' ' && is_letter(t[2]) && is_letter(t[3])
        && is_letter(t[4]) && t[5] == ' ' && time_shaped(t.skip(6)) {
        Some(StampView::Absolute { day: t.take(1), month: t.subrange(2, 5), time: t.skip(6) })
    } else if t.len() == 12 && is_digit(t[0]) && is_digit(t[1]) && t[2] == ' ' && is_letter(t[3])
        && is_letter(t[4]) && is_letter(t[5]) && t[6] == ' ' && time_shaped(t.skip(7)) {
        Some(StampView::Absolute { day: t.take(2), month: t.subrange(3, 6), time: t.skip(7) })
    } else {
        None
    }
}

pub open spec fn stamp_view(r: Option<Stamp>) -> Option<StampView> {
    match r {
        Some(s) => Some(s@),
        None => None,
    }
}

/// A date at a time of day, on the minute.
pub open spec fn at_time(d: LocalDate, t: TimeOfDay) -> LocalDateTime {
    LocalDateTime {
        year: d.year,
        month: d.month,
        day: d.day,
        hour: t.hour,
        minute: t.minute,
        second: 0,
    }
}

fn is_ascii_digit(c: char) -> (r: bool)
    ensures
        r == is_digit(c),
{
    '0' <= c && c <= '9'
}

fn is_ascii_letter(c: char) -> (r: bool)
    ensures
        r == is_letter(c),
{
    ('a' <= c && c <= 'z') || ('A' <= c && c <= 'Z')
}

/// Whether `w` stands in `t` from char position `from` on.
pub fn text_at(t: &str, from: usize, w: &str) -> (r: bool)
    ensures
        r == (from + w@.len() <= t@.len() && t@.subrange(from as int, from + w@.len()) == w@),
{
    let n = t.unicode_len();
    let k = w.unicode_len();
    if from > n || k > n - from {
        return false;
    }
    let mut i: usize = 0;
    while i < k
        invariant
            n == t@.len(),
            k == w@.len(),
            from + k <= n,
            i <= k,
            forall|j: int| 0 <= j < i ==> t@[from + j] == w@[j],
        decreases k - i,
    {
        if t.get_char(from + i) != w.get_char(i) {
            assert(t@.subrange(from as int, from + k)[i as int] != w@[i as int]);
            return false;
        }
        i = i + 1;
    }
    assert(t@.subrange(from as int, from + k) =~= w@);
    true
}

/// Whether `a` and `b` hold the same text.
pub fn same_text(a: &str, b: &str) -> (r: bool)
    ensures
        r == (a@ == b@),
{
    assert(a@.subrange(0, a@.len() as int) =~= a@);
    a.unicode_len() == b.unicode_len() && text_at(a, 0, b)
}

/// The value of the digits of `s` from `from` to `to`, when they are all
/// digits, there is at least one, and the value is at most `limit`.
fn read_decimal(s: &str, from: usize, to: usize, limit: u32) -> (r: Option<u32>)
    requires
        from <= to <= s@.len(),
        limit <= 1_000_000,
    ensures
        r == (if from < to && all_digits(s@.subrange(from as int, to as int)) && decimal(
            s@.subrange(from as int, to as int),
        ) <= limit {
            Some(decimal(s@.subrange(from as int, to as int)) as u32)
        } else {
            None
        }),
{
    if from == to {
        return None;
    }
    let mut v: u64 = 0;
    let mut i: usize = from;
    while i < to
        invariant
            from < to <= s@.len(),
            from <= i <= to,
            limit <= 1_000_000,
            all_digits(s@.subrange(from as int, i as int)),
            decimal(s@.subrange(from as int, i as int)) <= limit ==> v == decimal(
                s@.subrange(from as int, i as int),
            ),
            decimal(s@.subrange(from as int, i as int)) > limit ==> v > limit,
            v <= 10 * limit + 9,
        decreases to - i,
    {
        let c = s.get_char(i);
        let ghost prev = s@.subrange(from as int, i as int);
        let ghost next = s@.subrange(from as int, i + 1);
        assert(next.drop_last() =~= prev);
        if !is_ascii_digit(c) {
            assert(s@.subrange(from as int, to as int)[i - from] == c);
            return None;
        }
        assert(decimal(next) == decimal(prev) * 10 + (c as int - '0' as int));
        if v <= limit as u64 {
            v = v * 10 + (c as u32 - '0' as u32) as u64;
        }
        i = i + 1;
    }
    if v <= limit as u64 {
        Some(v as u32)
    } else {
        None
    }
}

/// Reads a day-of-month token: a number from 1 to 31.
pub fn parse_day(day: &str) -> (r: ParseResult<u32>)
    ensures
        result_view(r) == (match day_number(day@) {
            Some(d) => Ok(d),
            None => Err(ParseErrorView::InvalidDay(day@)),
        }),
{
    let n = day.unicode_len();
    let start: usize = if n > 0 && day.get_char(0) == '+' {
        1
    } else {
        0
    };
    proof {
        let d = if day@.len() > 0 && day@[0] == '+' {
            day@.drop_first()
        } else {
            day@
        };
        assert(d =~= day@.subrange(start as int, n as int));
    }
    match read_decimal(day, start, n, 31) {
        Some(v) => {
            if v >= 1 {
                Ok(v)
            } else {
                Err(ParseError::InvalidDay(String::from_str(day)))
            }
        },
        None => Err(ParseError::InvalidDay(String::from_str(day))),
    }
}

/// Reads a short Finnish month name (tam, hel, maa, huh, tou, kes, hei, elo,
/// syy, lok, mar, jou) as its ordinal, January being 1.
pub fn parse_month_short(month_short_name: &str) -> (r: ParseResult<u32>)
    ensures
        result_view(r) == (match month_number(month_short_name@) {
            Some(m) => Ok(m),
            None => Err(ParseErrorView::InvalidMonth(month_short_name@)),
        }),
{
    let s = month_short_name;
    let fail = Err(ParseError::InvalidMonth(String::from_str(s)));
    if s.unicode_len() != 3 {
        return fail;
    }
    let a = s.get_char(0);
    let b = s.get_char(1);
    let c = s.get_char(2);
    assert(s@ =~= seq![a, b, c]);
    match (a, b, c) {
        ('t', 'a', 'm') => Ok(1),
        ('h', 'e', 'l') => Ok(2),
        ('m', 'a', 'a') => Ok(3),
        ('h', 'u', 'h') => Ok(4),
        ('t', 'o', 'u') => Ok(5),
        ('k', 'e', 's') => Ok(6),
        ('h', 'e', 'i') => Ok(7),
        ('e', 'l', 'o') => Ok(8),
        ('s', 'y', 'y') => Ok(9),
        ('l', 'o', 'k') => Ok(10),
        ('m', 'a', 'r') => Ok(11),
        ('j', 'o', 'u') => Ok(12),
        _ => fail,
    }
}

/// What chrono reads from `s` as a time of day in the format `%H:%M`.
pub uninterp spec fn chrono_time_of(s: Seq<char>) -> Option<TimeOfDay>;

/// Relies on chrono's `NaiveTime::parse_from_str` with the format `%H:%M`.
/// On two digits, a colon and two digits it reads the two numbers and refuses
/// an hour above 23 (`Parsed::set_hour`) or a minute above 59
/// (`Parsed::set_minute`); seconds default to zero.
#[verifier::external_body]
fn read_hh_mm(s: &str) -> (r: Option<TimeOfDay>)
    ensures
        r == chrono_time_of(s@),
        time_shaped(s@) ==> r == time_of_day(s@),
{
    chrono::NaiveTime::parse_from_str(s, "%H:%M").ok().map(
        |t| TimeOfDay { hour: t.hour(), minute: t.minute() },
    )
}

/// Reads a time of day as chrono does with the format `%H:%M`: on the
/// zero-padded form `HH:MM`, hours 00-23 and minutes 00-59.
pub fn parse_hh_mm(time: &str) -> (r: ParseResult<TimeOfDay>)
    ensures
        result_view(r) == (match chrono_time_of(time@) {
            Some(t) => Ok(t),
            None => Err(ParseErrorView::InvalidTime(time@)),
        }),
        time_shaped(time@) ==> result_view(r) == (match time_of_day(time@) {
            Some(t) => Ok(t),
            None => Err(ParseErrorView::InvalidTime(time@)),
        }),
{
    match read_hh_mm(time) {
        Some(t) => Ok(t),
        None => Err(ParseError::InvalidTime(String::from_str(time))),
    }
}

fn time_shaped_at(t: &str, from: usize) -> (r: bool)
    requires
        from + 5 == t@.len(),
    ensures
        r == time_shaped(t@.skip(from as int)),
{
    let _ = t.unicode_len();
    is_ascii_digit(t.get_char(from)) && is_ascii_digit(t.get_char(from + 1)) && t.get_char(
        from + 2,
    ) == ':' && is_ascii_digit(t.get_char(from + 3)) && is_ascii_digit(t.get_char(from + 4))
}

/// Splits a stamp into its tokens, after collapsing its whitespace.
pub fn tokenize(ts: &str) -> (r: Option<Stamp>)
    ensures
        stamp_view(r) == stamp_of(normalize(ts@)),
{
    let normal = reformat_ws(ts);
    let t = normal.as_str();
    let n = t.unicode_len();
    proof {
        reveal_strlit("tänään");
        reveal_strlit("eilen");
        assert("tänään"@ =~= today_word());
        assert("eilen"@ =~= yesterday_word());
    }
    if n == 12 && text_at(t, 0, "tänään") && t.get_char(6) == ' ' && time_shaped_at(t, 7) {
        assert(t@.subrange(0, 6) =~= t@.take(6));
        return Some(
            Stamp::Relative {
                day: String::from_str(t.substring_char(0, 6)),
                time: String::from_str(t.substring_char(7, 12)),
            },
        );
    }
    assert(n == 12 ==> t@.subrange(0, 6) =~= t@.take(6));
    if n == 11 && text_at(t, 0, "eilen") && t.get_char(5) == ' ' && time_shaped_at(t, 6) {
        assert(t@.subrange(0, 5) =~= t@.take(5));
        return Some(
            Stamp::Relative {
                day: String::from_str(t.substring_char(0, 5)),
                time: String::from_str(t.substring_char(6, 11)),
            },
        );
    }
    assert(n == 11 ==> t@.subrange(0, 5) =~= t@.take(5));
    if n == 11 && is_ascii_digit(t.get_char(0)) && t.get_char(1) == ' ' && is_ascii_letter(
        t.get_char(2),
    ) && is_ascii_letter(t.get_char(3)) && is_ascii_letter(t.get_char(4)) && t.get_char(5) == ' '
        && time_shaped_at(t, 6) {
        return Some(
            Stamp::Absolute {
                day: String::from_str(t.substring_char(0, 1)),
                month: String::from_str(t.substring_char(2, 5)),
                time: String::from_str(t.substring_char(6, 11)),
            },
        );
    }
    if n == 12 && is_ascii_digit(t.get_char(0)) && is_ascii_digit(t.get_char(1)) && t.get_char(2)
        == ' ' && is_ascii_letter(t.get_char(3)) && is_ascii_letter(t.get_char(4))
        && is_ascii_letter(t.get_char(5)) && t.get_char(6) == ' ' && time_shaped_at(t, 7) {
        return Some(
            Stamp::Absolute {
                day: String::from_str(t.substring_char(0, 2)),
                month: String::from_str(t.substring_char(3, 6)),
                time: String::from_str(t.substring_char(7, 12)),
            },
        );
    }
    None
}

/// The character of a decimal digit.
pub open spec fn digit_char(d: int) -> char {
    (d + '0' as int) as char
}

/// A number below 100 as two decimal digits.
pub open spec fn two_digits(n: int) -> Seq<char> {
    seq![digit_char(n / 10), digit_char(n % 10)]
}

/// `HH:MM` reads back the hour and minute it was written from when the hour
/// is below 24 and the minute below 60, and is refused otherwise; with the
/// contract of [`parse_hh_mm`] this holds of that function.
pub proof fn lemma_hh_mm_round_trip(hour: int, minute: int)
    requires
        0 <= hour < 100,
        0 <= minute < 100,
    ensures
        time_shaped(two_digits(hour) + seq![':'] + two_digits(minute)),
        time_of_day(two_digits(hour) + seq![':'] + two_digits(minute)) == (if hour < 24 && minute
            < 60 {
            Some(TimeOfDay { hour: hour as u32, minute: minute as u32 })
        } else {
            None
        }),
{
    let s = two_digits(hour) + seq![':'] + two_digits(minute);
    assert(s.take(2) =~= two_digits(hour));
    assert(s.skip(3) =~= two_digits(minute));
    lemma_two_digits(hour);
    lemma_two_digits(minute);
    assert(s[0] == two_digits(hour)[0] && s[1] == two_digits(hour)[1]);
    assert(s[3] == two_digits(minute)[0] && s[4] == two_digits(minute)[1]);
}

proof fn lemma_two_digits(n: int)
    requires
        0 <= n < 100,
    ensures
        all_digits(two_digits(n)),
        decimal(two_digits(n)) == n,
{
    let s = two_digits(n);
    let first = seq![digit_char(n / 10)];
    assert(digit_char(n / 10) as int == n / 10 + '0' as int);
    assert(digit_char(n % 10) as int == n % 10 + '0' as int);
    assert(s.drop_last() =~= first);
    assert(first.drop_last() =~= Seq::<char>::empty());
    assert(decimal(Seq::<char>::empty()) == 0);
    assert(decimal(first) == n / 10);
}

/// A dated stamp whose day token is a number outside 1-31 fails on its day,
/// whatever the resolver.
pub proof fn lemma_day_out_of_range(
    p: DateParser,
    day: Seq<char>,
    month: Seq<char>,
    time: Seq<char>,
)
    requires
        1 <= day.len() <= 2,
        all_digits(day),
        decimal(day) == 0 || decimal(day) > 31,
        month.len() == 3,
        is_letter(month[0]) && is_letter(month[1]) && is_letter(month[2]),
        time_shaped(time),
    ensures
        p.resolve(day + seq![' '] + month + seq![' '] + time) == Err::<i64, ParseErrorView>(
            ParseErrorView::InvalidDay(day),
        ),
{
    let raw = day + seq![' '] + month + seq![' '] + time;
    let k = day.len() as int;
    assert forall|i: int| 0 <= i < raw.len() && is_ws(#[trigger] raw[i]) implies raw[i] == ' ' by {
        if i < k {
            assert(raw[i] == day[i]);
        } else if k < i < k + 4 {
            assert(raw[i] == month[i - k - 1]);
        } else if i > k + 4 {
            assert(raw[i] == time[i - k - 5]);
        }
    }
    assert forall|i: int| 0 <= i < raw.len() - 1 && #[trigger] raw[i] == ' ' implies raw[i + 1]
        != ' ' by {
        if i < k {
            assert(raw[i] == day[i]);
        } else if k < i < k + 4 {
            assert(raw[i] == month[i - k - 1]);
        } else if i > k + 4 {
            assert(raw[i] == time[i - k - 5]);
        }
    }
    assert(raw[0] == day[0]);
    assert(raw.last() == time[4]);
    assert(is_normal(raw));
    lemma_normal_unchanged(raw);
    assert(raw.take(k) =~= day);
    assert(raw.subrange(k + 1, k + 4) =~= month);
    assert(raw.skip(k + 5) =~= time);
    if k == 1 {
        assert(raw.take(5) != yesterday_word()) by {
            assert(raw.take(5)[0] == day[0]);
        }
    } else {
        assert(raw.take(6) != today_word()) by {
            assert(raw.take(6)[0] == day[0]);
        }
    }
    assert(day_number(day) is None) by {
        assert(day[0] != '+');
    }
}

/// Resolves stamps against one fetch moment in one zone. "Today" and
/// "yesterday" are the zone's calendar dates at that moment, fixed when the
/// resolver is made.
pub struct DateParser {
    user_tz: String,
    server_time: i64,
    user_today: LocalDate,
    user_yesterday: LocalDate,
}

impl DateParser {
    #[verifier::type_invariant]
    spec fn wf(self) -> bool {
        self.user_today.year >= -262145
    }

    /// The IANA name of the visitor's zone.
    pub closed spec fn zone(&self) -> Seq<char> {
        self.user_tz@
    }

    /// The fetch moment, in seconds after the Unix epoch.
    pub closed spec fn anchor(&self) -> i64 {
        self.server_time
    }

    /// The zone's calendar date at the fetch moment.
    pub closed spec fn today(&self) -> LocalDate {
        self.user_today
    }

    /// The calendar date before [`Self::today`].
    pub closed spec fn yesterday(&self) -> LocalDate {
        self.user_yesterday
    }

    /// The instant at which the zone reads `date` at `time`.
    pub open spec fn instant_at(&self, date: LocalDate, time: TimeOfDay) -> Result<
        i64,
        ParseErrorView,
    > {
        match zone_instant_of(self.zone(), at_time(date, time)) {
            Some(ZoneReading::Single(t)) => Ok(t),
            _ => Err(ParseErrorView::ArithmeticProblem),
        }
    }

    /// Day `day` of month `month` at `time` in the year of the fetch moment,
    /// or a year earlier when that lies after the fetch moment: a listing is
    /// taken to be less than a year old.
    pub open spec fn dated_instant(&self, day: u32, month: u32, time: TimeOfDay) -> Result<
        i64,
        ParseErrorView,
    > {
        let this_year = LocalDate { year: self.today().year, month, day };
        match self.instant_at(this_year, time) {
            Err(e) => Err(e),
            Ok(t) => if t > self.anchor() {
                self.instant_at(LocalDate { year: (self.today().year - 1) as i32, month, day }, time)
            } else {
                Ok(t)
            },
        }
    }

    /// What a relative stamp resolves to; the day word is read first.
    pub open spec fn relative(&self, relday: Seq<char>, hhmm: Seq<char>) -> Result<
        i64,
        ParseErrorView,
    > {
        let date = if relday == today_word() {
            Some(self.today())
        } else if relday == yesterday_word() {
            Some(self.yesterday())
        } else {
            None
        };
        match date {
            None => Err(ParseErrorView::InvalidRelativeDay(relday)),
            Some(d) => match time_of_day(hhmm) {
                None => Err(ParseErrorView::InvalidTime(hhmm)),
                Some(t) => self.instant_at(d, t),
            },
        }
    }

    /// What a dated stamp resolves to; its tokens are read left to right.
    pub open spec fn absolute(&self, day: Seq<char>, month: Seq<char>, hhmm: Seq<char>) -> Result<
        i64,
        ParseErrorView,
    > {
        match day_number(day) {
            None => Err(ParseErrorView::InvalidDay(day)),
            Some(d) => match month_number(month) {
                None => Err(ParseErrorView::InvalidMonth(month)),
                Some(m) => match time_of_day(hhmm) {
                    None => Err(ParseErrorView::InvalidTime(hhmm)),
                    Some(t) => self.dated_instant(d, m, t),
                },
            },
        }
    }

    /// What the stamp `raw` resolves to.
    pub open spec fn resolve(&self, raw: Seq<char>) -> Result<i64, ParseErrorView> {
        match stamp_of(normalize(raw)) {
            None => Err(ParseErrorView::InvalidHighlevelStructure(raw)),
            Some(StampView::Relative { day, time }) => self.relative(day, time),
            Some(StampView::Absolute { day, month, time }) => self.absolute(day, month, time),
        }
    }

    /// A resolver for the fetch moment `server_time` (seconds after the Unix
    /// epoch) in the zone named `user_tz`; none when the zone's reading at that
    /// moment cannot be had.
    pub fn new(server_time: i64, user_tz: &str) -> (r: Option<DateParser>)
        ensures
            r is None <==> zone_local_of(user_tz@, server_time) is None,
            r matches Some(p) ==> {
                &&& p.zone() == user_tz@
                &&& p.anchor() == server_time
                &&& p.today() == date_of(zone_local_of(user_tz@, server_time)->0)
                &&& p.yesterday() == day_before(p.today())
            },
    {
        match local_time_in_zone(user_tz, server_time) {
            None => None,
            Some(now) => {
                let today = LocalDate { year: now.year, month: now.month, day: now.day };
                Some(
                    DateParser {
                        user_tz: String::from_str(user_tz),
                        server_time,
                        user_today: today,
                        user_yesterday: previous_day(today),
                    },
                )
            },
        }
    }

    fn instant(&self, date: LocalDate, time: TimeOfDay) -> (r: ParseResult<i64>)
        ensures
            result_view(r) == self.instant_at(date, time),
            !names_a_reading(at_time(date, time)) ==> r == Err::<i64, ParseError>(
                ParseError::ArithmeticProblem,
            ),
    {
        let local = LocalDateTime {
            year: date.year,
            month: date.month,
            day: date.day,
            hour: time.hour,
            minute: time.minute,
            second: 0,
        };
        // A reading the zone shows twice or never names no single instant.
        match instant_in_zone(self.user_tz.as_str(), local) {
            Some(ZoneReading::Single(t)) => Ok(t),
            Some(ZoneReading::Ambiguous(_, _)) => Err(ParseError::ArithmeticProblem),
            Some(ZoneReading::Nonexistent) => Err(ParseError::ArithmeticProblem),
            None => Err(ParseError::ArithmeticProblem),
        }
    }

    fn parse_rel_time(&self, relday_s: &str, hhmm_s: &str) -> (r: ParseResult<i64>)
        requires
            time_shaped(hhmm_s@),
        ensures
            result_view(r) == self.relative(relday_s@, hhmm_s@),
    {
        proof {
            reveal_strlit("tänään");
            reveal_strlit("eilen");
            assert("tänään"@ =~= today_word());
            assert("eilen"@ =~= yesterday_word());
        }
        let date = if same_text(relday_s, "tänään") {
            self.user_today
        } else if same_text(relday_s, "eilen") {
            self.user_yesterday
        } else {
            return Err(ParseError::InvalidRelativeDay(String::from_str(relday_s)));
        };
        match parse_hh_mm(hhmm_s) {
            Ok(time) => self.instant(date, time),
            Err(e) => Err(e),
        }
    }

    fn parse_abs_time(&self, day_s: &str, month_s: &str, hhmm_s: &str) -> (r: ParseResult<i64>)
        requires
            time_shaped(hhmm_s@),
        ensures
            result_view(r) == self.absolute(day_s@, month_s@, hhmm_s@),
            self.no_such_day(day_s@, month_s@, hhmm_s@) ==> r == Err::<i64, ParseError>(
                ParseError::ArithmeticProblem,
            ),
    {
        let day = match parse_day(day_s) {
            Ok(d) => d,
            Err(e) => return Err(e),
        };
        let month = match parse_month_short(month_s) {
            Ok(m) => m,
            Err(e) => return Err(e),
        };
        let time = match parse_hh_mm(hhmm_s) {
            Ok(t) => t,
            Err(e) => return Err(e),
        };
        proof {
            use_type_invariant(self);
        }
        let this_year = LocalDate { year: self.user_today.year, month, day };
        match self.instant(this_year, time) {
            Err(e) => Err(e),
            Ok(t) => {
                // The page gives no year: a stamp after the fetch moment is from
                // the year before.
                if t > self.server_time {
                    self.instant(LocalDate { year: self.user_today.year - 1, month, day }, time)
                } else {
                    Ok(t)
                }
            },
        }
    }

    /// A dated stamp whose tokens read but whose day does not exist in that
    /// month of the fetch moment's year.
    pub open spec fn no_such_day(&self, day: Seq<char>, month: Seq<char>, hhmm: Seq<char>) -> bool {
        &&& day_number(day) is Some
        &&& month_number(month) is Some
        &&& time_of_day(hhmm) is Some
        &&& day_number(day)->0 > days_in_month(
            self.today().year as int,
            month_number(month)->0 as int,
        )
    }

    /// Resolves a stamp: `tänään HH:MM` or `eilen HH:MM` on the zone's date
    /// at the fetch moment or the day before, or `D mon HH:MM` in the year of
    /// the fetch moment, rolled back a year when that lies after it.
    pub fn parse(&self, ts: &str) -> (r: ParseResult<i64>)
        ensures
            result_view(r) == self.resolve(ts@),
            stamp_of(normalize(ts@)) matches Some(StampView::Absolute { day, month, time })
                && self.no_such_day(day, month, time) ==> r == Err::<i64, ParseError>(
                ParseError::ArithmeticProblem,
            ),
    {
        match tokenize(ts) {
            None => Err(ParseError::InvalidHighlevelStructure(String::from_str(ts))),
            Some(Stamp::Relative { day, time }) => self.parse_rel_time(day.as_str(), time.as_str()),
            Some(Stamp::Absolute { day, month, time }) => self.parse_abs_time(
                day.as_str(),
                month.as_str(),
                time.as_str(),
            ),
        }
    }
}

} // verus!
