//! The fixed textual timestamp format of the wire records:
//! `Www Mmm DD HH:MM:SS +ZZZZ YYYY` (for example
//! `Mon Jan 02 15:04:05 +0000 2006`), parsed into a plain calendar value
//! and formatted back, with the instant it denotes as seconds since the
//! Unix epoch.

use vstd::prelude::*;

use crate::error::Error;
use crate::text::digit_char;
use crate::text::digit_char_of;
use crate::text::is_digit;
use crate::text::push_char;

verus! {

/// A timezone-aware calendar instant as the fixed timestamp format writes
/// it: every field a plain value. Days of the week count from Sunday as
/// zero; the offset keeps its written sign, so `-0000` and `+0000` stay
/// distinct texts for the same instant.
#[derive(Clone, Copy, Debug, PartialEq, Eq, Structural)]
pub struct DateStamp {
    pub weekday: u32,
    pub year: u32,
    pub month: u32,
    pub day: u32,
    pub hour: u32,
    pub minute: u32,
    pub second: u32,
    pub off_negative: bool,
    pub off_hour: u32,
    pub off_minute: u32,
}

/// Whether the year has 366 days.
pub open spec fn is_leap_year(y: int) -> bool {
    y % 4 == 0 && (y % 100 != 0 || y % 400 == 0)
}

/// How many days the month of the year has.
pub open spec fn days_in_month(y: int, m: int) -> int {
    if m == 2 {
        if is_leap_year(y) {
            29
        } else {
            28
        }
    } else if m == 4 || m == 6 || m == 9 || m == 11 {
        30
    } else {
        31
    }
}

/// Whether every field lies in the range the format can carry: a real
/// calendar date of a four-digit year, a time of day, and an offset below
/// one day.
pub open spec fn stamp_wf(d: DateStamp) -> bool {
    &&& d.weekday <= 6
    &&& d.year <= 9999
    &&& 1 <= d.month <= 12
    &&& 1 <= d.day <= days_in_month(d.year as int, d.month as int)
    &&& d.hour <= 23
    &&& d.minute <= 59
    &&& d.second <= 59
    &&& d.off_hour <= 23
    &&& d.off_minute <= 59
}

/// The three-letter token of a day of the week, Sunday first.
pub open spec fn weekday_name(w: int) -> Seq<char> {
    if w == 0 {
        "Sun"@
    } else if w == 1 {
        "Mon"@
    } else if w == 2 {
        "Tue"@
    } else if w == 3 {
        "Wed"@
    } else if w == 4 {
        "Thu"@
    } else if w == 5 {
        "Fri"@
    } else {
        "Sat"@
    }
}

/// The three-letter token of a month, January as one.
pub open spec fn month_name(m: int) -> Seq<char> {
    if m == 1 {
        "Jan"@
    } else if m == 2 {
        "Feb"@
    } else if m == 3 {
        "Mar"@
    } else if m == 4 {
        "Apr"@
    } else if m == 5 {
        "May"@
    } else if m == 6 {
        "Jun"@
    } else if m == 7 {
        "Jul"@
    } else if m == 8 {
        "Aug"@
    } else if m == 9 {
        "Sep"@
    } else if m == 10 {
        "Oct"@
    } else if m == 11 {
        "Nov"@
    } else {
        "Dec"@
    }
}

/// The day of the week a three-letter token denotes.
pub open spec fn weekday_of(s: Seq<char>) -> Option<u32> {
    if s == "Sun"@ {
        Some(0u32)
    } else if s == "Mon"@ {
        Some(1u32)
    } else if s == "Tue"@ {
        Some(2u32)
    } else if s == "Wed"@ {
        Some(3u32)
    } else if s == "Thu"@ {
        Some(4u32)
    } else if s == "Fri"@ {
        Some(5u32)
    } else if s == "Sat"@ {
        Some(6u32)
    } else {
        None
    }
}

/// The month a three-letter token denotes.
pub open spec fn month_of(s: Seq<char>) -> Option<u32> {
    if s == "Jan"@ {
        Some(1u32)
    } else if s == "Feb"@ {
        Some(2u32)
    } else if s == "Mar"@ {
        Some(3u32)
    } else if s == "Apr"@ {
        Some(4u32)
    } else if s == "May"@ {
        Some(5u32)
    } else if s == "Jun"@ {
        Some(6u32)
    } else if s == "Jul"@ {
        Some(7u32)
    } else if s == "Aug"@ {
        Some(8u32)
    } else if s == "Sep"@ {
        Some(9u32)
    } else if s == "Oct"@ {
        Some(10u32)
    } else if s == "Nov"@ {
        Some(11u32)
    } else if s == "Dec"@ {
        Some(12u32)
    } else {
        None
    }
}

/// The value of the two digits at a position, if both are digits.
pub open spec fn two_digits_at(s: Seq<char>, i: int) -> Option<u32> {
    if is_digit(s[i]) && is_digit(s[i + 1]) {
        Some((crate::text::digit_val(s[i]) * 10 + crate::text::digit_val(s[i + 1])) as u32)
    } else {
        None
    }
}

/// The value of the four digits at a position, if all four are digits.
pub open spec fn four_digits_at(s: Seq<char>, i: int) -> Option<u32> {
    if is_digit(s[i]) && is_digit(s[i + 1]) && is_digit(s[i + 2]) && is_digit(s[i + 3]) {
        Some(
            (crate::text::digit_val(s[i]) * 1000 + crate::text::digit_val(s[i + 1]) * 100
                + crate::text::digit_val(s[i + 2]) * 10 + crate::text::digit_val(s[i + 3])) as u32,
        )
    } else {
        None
    }
}

/// The calendar value a well-formed timestamp text denotes: exactly
/// thirty characters, the tokens at their fixed positions, every numeric
/// field in range.
pub open spec fn parse_stamp(s: Seq<char>) -> Option<DateStamp> {
    if s.len() != 30 {
        None
    } else if !(s[3] == ' ' && s[7] == ' ' && s[10] == ' ' && s[13] == ':' && s[16] == ':' && s[19]
        == ' ' && s[25] == ' ' && (s[20] == '+' || s[20] == '-')) {
        None
    } else {
        match (
            weekday_of(s.subrange(0, 3)),
            month_of(s.subrange(4, 7)),
            two_digits_at(s, 8),
            two_digits_at(s, 11),
            two_digits_at(s, 14),
            two_digits_at(s, 17),
            two_digits_at(s, 21),
            two_digits_at(s, 23),
            four_digits_at(s, 26),
        ) {
            (
                Some(w),
                Some(mo),
                Some(da),
                Some(h),
                Some(mi),
                Some(sec),
                Some(oh),
                Some(om),
                Some(y),
            ) => {
                if 1 <= da <= days_in_month(y as int, mo as int) && h <= 23 && mi <= 59 && sec
                    <= 59 && oh <= 23 && om <= 59 {
                    Some(
                        DateStamp {
                            weekday: w,
                            year: y,
                            month: mo,
                            day: da,
                            hour: h,
                            minute: mi,
                            second: sec,
                            off_negative: s[20] == '-',
                            off_hour: oh,
                            off_minute: om,
                        },
                    )
                } else {
                    None
                }
            },
            _ => None,
        }
    }
}

/// Two decimal digits, zero-padded.
pub open spec fn two_digit_chars(n: int) -> Seq<char> {
    seq![digit_char((n / 10) as nat), digit_char((n % 10) as nat)]
}

/// Four decimal digits, zero-padded.
pub open spec fn four_digit_chars(n: int) -> Seq<char> {
    seq![
        digit_char((n / 1000) as nat),
        digit_char(((n / 100) % 10) as nat),
        digit_char(((n / 10) % 10) as nat),
        digit_char((n % 10) as nat),
    ]
}

/// The timestamp text of a calendar value, in the fixed format.
pub open spec fn format_stamp(d: DateStamp) -> Seq<char> {
    weekday_name(d.weekday as int) + seq![' '] + month_name(d.month as int) + seq![' ']
        + two_digit_chars(d.day as int) + seq![' '] + two_digit_chars(d.hour as int) + seq![':']
        + two_digit_chars(d.minute as int) + seq![':'] + two_digit_chars(d.second as int)
        + seq![' '] + seq![if d.off_negative { '-' } else { '+' }] + two_digit_chars(
        d.off_hour as int,
    ) + two_digit_chars(d.off_minute as int) + seq![' '] + four_digit_chars(d.year as int)
}

impl DateStamp {
    /// Every field lies in the range the format can carry.
    pub open spec fn wf(&self) -> bool {
        stamp_wf(*self)
    }

    /// Parses the fixed timestamp format; any text that does not match it
    /// is a mapping defect carrying the raw text.
    pub fn parse(s: &str) -> (r: Result<DateStamp, Error>)
        ensures
            parse_stamp(s@) matches Some(d) ==> (r matches Ok(x) && x == d),
            parse_stamp(s@) is None ==> (r matches Err(e) && (e matches Error::MappingDefect(raw)
                && raw@ == s@)),
    {
        match Self::parse_inner(s) {
            Some(d) => Ok(d),
            None => Err(Error::MappingDefect(s.to_owned())),
        }
    }

    /// The parsing itself, with the match of text against format as its
    /// result.
    fn parse_inner(s: &str) -> (r: Option<DateStamp>)
        ensures
            r == parse_stamp(s@),
    {
        proof {
            reveal_strlit("Sun");
            reveal_strlit("Mon");
            reveal_strlit("Tue");
            reveal_strlit("Wed");
            reveal_strlit("Thu");
            reveal_strlit("Fri");
            reveal_strlit("Sat");
            reveal_strlit("Jan");
            reveal_strlit("Feb");
            reveal_strlit("Mar");
            reveal_strlit("Apr");
            reveal_strlit("May");
            reveal_strlit("Jun");
            reveal_strlit("Jul");
            reveal_strlit("Aug");
            reveal_strlit("Sep");
            reveal_strlit("Oct");
            reveal_strlit("Nov");
            reveal_strlit("Dec");
        }
        if s.unicode_len() != 30 {
            return None;
        }
        if !(s.get_char(3) == ' ' && s.get_char(7) == ' ' && s.get_char(10) == ' ' && s.get_char(13)
            == ':' && s.get_char(16) == ':' && s.get_char(19) == ' ' && s.get_char(25) == ' ') {
            return None;
        }
        let sign = s.get_char(20);
        if !(sign == '+' || sign == '-') {
            return None;
        }
        let weekday_tok = s.substring_char(0, 3);
        let w = if str_eq3(weekday_tok, "Sun") {
            0u32
        } else if str_eq3(weekday_tok, "Mon") {
            1u32
        } else if str_eq3(weekday_tok, "Tue") {
            2u32
        } else if str_eq3(weekday_tok, "Wed") {
            3u32
        } else if str_eq3(weekday_tok, "Thu") {
            4u32
        } else if str_eq3(weekday_tok, "Fri") {
            5u32
        } else if str_eq3(weekday_tok, "Sat") {
            6u32
        } else {
            proof {
                assert(weekday_of(s@.subrange(0, 3)) is None);
            }
            return None;
        };
        proof {
            assert(weekday_of(s@.subrange(0, 3)) == Some(w));
        }
        let month_tok = s.substring_char(4, 7);
        let mo = if str_eq3(month_tok, "Jan") {
            1u32
        } else if str_eq3(month_tok, "Feb") {
            2u32
        } else if str_eq3(month_tok, "Mar") {
            3u32
        } else if str_eq3(month_tok, "Apr") {
            4u32
        } else if str_eq3(month_tok, "May") {
            5u32
        } else if str_eq3(month_tok, "Jun") {
            6u32
        } else if str_eq3(month_tok, "Jul") {
            7u32
        } else if str_eq3(month_tok, "Aug") {
            8u32
        } else if str_eq3(month_tok, "Sep") {
            9u32
        } else if str_eq3(month_tok, "Oct") {
            10u32
        } else if str_eq3(month_tok, "Nov") {
            11u32
        } else if str_eq3(month_tok, "Dec") {
            12u32
        } else {
            proof {
                assert(month_of(s@.subrange(4, 7)) is None);
            }
            return None;
        };
        proof {
            assert(month_of(s@.subrange(4, 7)) == Some(mo));
        }
        let da = match read_two_digits(s, 8) {
            Some(v) => v,
            None => {
                return None;
            },
        };
        let h = match read_two_digits(s, 11) {
            Some(v) => v,
            None => {
                return None;
            },
        };
        let mi = match read_two_digits(s, 14) {
            Some(v) => v,
            None => {
                return None;
            },
        };
        let sec = match read_two_digits(s, 17) {
            Some(v) => v,
            None => {
                return None;
            },
        };
        let oh = match read_two_digits(s, 21) {
            Some(v) => v,
            None => {
                return None;
            },
        };
        let om = match read_two_digits(s, 23) {
            Some(v) => v,
            None => {
                return None;
            },
        };
        let y = match read_four_digits(s, 26) {
            Some(v) => v,
            None => {
                return None;
            },
        };
        let dim = days_in_month_exec(y, mo);
        if !(1 <= da && da <= dim && h <= 23 && mi <= 59 && sec <= 59 && oh <= 23 && om <= 59) {
            return None;
        }
        Some(
            DateStamp {
                weekday: w,
                year: y,
                month: mo,
                day: da,
                hour: h,
                minute: mi,
                second: sec,
                off_negative: sign == '-',
                off_hour: oh,
                off_minute: om,
            },
        )
    }

    /// Writes the calendar value back in the fixed format.
    pub fn format(&self) -> (r: String)
        requires
            self.wf(),
        ensures
            r@ == format_stamp(*self),
    {
        let mut r = String::new();
        proof {
            reveal_strlit("Sun");
            reveal_strlit("Mon");
            reveal_strlit("Tue");
            reveal_strlit("Wed");
            reveal_strlit("Thu");
            reveal_strlit("Fri");
            reveal_strlit("Sat");
            reveal_strlit("Jan");
            reveal_strlit("Feb");
            reveal_strlit("Mar");
            reveal_strlit("Apr");
            reveal_strlit("May");
            reveal_strlit("Jun");
            reveal_strlit("Jul");
            reveal_strlit("Aug");
            reveal_strlit("Sep");
            reveal_strlit("Oct");
            reveal_strlit("Nov");
            reveal_strlit("Dec");
        }
        match self.weekday {
            0 => r.append("Sun"),
            1 => r.append("Mon"),
            2 => r.append("Tue"),
            3 => r.append("Wed"),
            4 => r.append("Thu"),
            5 => r.append("Fri"),
            _ => r.append("Sat"),
        }
        push_char(&mut r, ' ');
        match self.month {
            1 => r.append("Jan"),
            2 => r.append("Feb"),
            3 => r.append("Mar"),
            4 => r.append("Apr"),
            5 => r.append("May"),
            6 => r.append("Jun"),
            7 => r.append("Jul"),
            8 => r.append("Aug"),
            9 => r.append("Sep"),
            10 => r.append("Oct"),
            11 => r.append("Nov"),
            _ => r.append("Dec"),
        }
        push_char(&mut r, ' ');
        proof {
            assert(r@ =~= weekday_name(self.weekday as int) + seq![' '] + month_name(
                self.month as int,
            ) + seq![' ']);
        }
        let ghost g1 = r@;
        append_two_digits(&mut r, self.day);
        push_char(&mut r, ' ');
        append_two_digits(&mut r, self.hour);
        push_char(&mut r, ':');
        proof {
            assert(r@ =~= g1 + two_digit_chars(self.day as int) + seq![' '] + two_digit_chars(
                self.hour as int,
            ) + seq![':']);
        }
        let ghost g2 = r@;
        append_two_digits(&mut r, self.minute);
        push_char(&mut r, ':');
        append_two_digits(&mut r, self.second);
        push_char(&mut r, ' ');
        proof {
            assert(r@ =~= g2 + two_digit_chars(self.minute as int) + seq![':'] + two_digit_chars(
                self.second as int,
            ) + seq![' ']);
        }
        let ghost g3 = r@;
        push_char(&mut r, if self.off_negative { '-' } else { '+' });
        append_two_digits(&mut r, self.off_hour);
        append_two_digits(&mut r, self.off_minute);
        push_char(&mut r, ' ');
        append_four_digits(&mut r, self.year);
        proof {
            assert(r@ =~= g3 + seq![if self.off_negative { '-' } else { '+' }] + two_digit_chars(
                self.off_hour as int,
            ) + two_digit_chars(self.off_minute as int) + seq![' '] + four_digit_chars(
                self.year as int,
            ));
            assert(r@ =~= format_stamp(*self));
        }
        r
    }
}

/// How many days the month of the year has.
fn days_in_month_exec(y: u32, m: u32) -> (r: u32)
    ensures
        r == days_in_month(y as int, m as int),
{
    if m == 2 {
        if y % 4 == 0 && (y % 100 != 0 || y % 400 == 0) {
            29
        } else {
            28
        }
    } else if m == 4 || m == 6 || m == 9 || m == 11 {
        30
    } else {
        31
    }
}

/// Whether a three-character text equals a three-character token.
fn str_eq3(a: &str, b: &str) -> (r: bool)
    requires
        a@.len() == 3,
        b@.len() == 3,
    ensures
        r <==> a@ == b@,
{
    let r = a.get_char(0) == b.get_char(0) && a.get_char(1) == b.get_char(1) && a.get_char(2)
        == b.get_char(2);
    proof {
        if r {
            assert(a@ =~= b@);
        }
    }
    r
}

/// Reads the two-digit number at a position.
fn read_two_digits(s: &str, i: usize) -> (r: Option<u32>)
    requires
        i + 2 <= s@.len(),
        i + 2 <= usize::MAX,
    ensures
        r == two_digits_at(s@, i as int),
{
    let c0 = s.get_char(i);
    let c1 = s.get_char(i + 1);
    if c0 < '0' || c0 > '9' || c1 < '0' || c1 > '9' {
        return None;
    }
    proof {
        assert('0' as u32 <= c0 as u32 <= '9' as u32);
        assert('0' as u32 <= c1 as u32 <= '9' as u32);
    }
    let v = (c0 as u32 - '0' as u32) * 10 + (c1 as u32 - '0' as u32);
    Some(v)
}

/// Reads the four-digit number at a position.
fn read_four_digits(s: &str, i: usize) -> (r: Option<u32>)
    requires
        i + 4 <= s@.len(),
        i + 4 <= usize::MAX,
    ensures
        r == four_digits_at(s@, i as int),
{
    let c0 = s.get_char(i);
    let c1 = s.get_char(i + 1);
    let c2 = s.get_char(i + 2);
    let c3 = s.get_char(i + 3);
    if c0 < '0' || c0 > '9' || c1 < '0' || c1 > '9' || c2 < '0' || c2 > '9' || c3 < '0' || c3 > '9' {
        return None;
    }
    proof {
        assert('0' as u32 <= c0 as u32 <= '9' as u32);
        assert('0' as u32 <= c1 as u32 <= '9' as u32);
        assert('0' as u32 <= c2 as u32 <= '9' as u32);
        assert('0' as u32 <= c3 as u32 <= '9' as u32);
    }
    let v = (c0 as u32 - '0' as u32) * 1000 + (c1 as u32 - '0' as u32) * 100 + (c2 as u32
        - '0' as u32) * 10 + (c3 as u32 - '0' as u32);
    Some(v)
}

/// Appends a number below one hundred as two zero-padded digits.
fn append_two_digits(r: &mut String, n: u32)
    requires
        n < 100,
    ensures
        final(r)@ == old(r)@ + two_digit_chars(n as int),
{
    push_char(r, digit_char_of(n / 10));
    push_char(r, digit_char_of(n % 10));
    proof {
        assert(r@ =~= old(r)@ + two_digit_chars(n as int));
    }
}

/// Appends a number below ten thousand as four zero-padded digits.
fn append_four_digits(r: &mut String, n: u32)
    requires
        n < 10000,
    ensures
        final(r)@ == old(r)@ + four_digit_chars(n as int),
{
    push_char(r, digit_char_of(n / 1000));
    push_char(r, digit_char_of((n / 100) % 10));
    push_char(r, digit_char_of((n / 10) % 10));
    push_char(r, digit_char_of(n % 10));
    proof {
        assert(r@ =~= old(r)@ + four_digit_chars(n as int));
    }
}

// ---------------------------------------------------------------------------
// The instant a calendar value denotes
// ---------------------------------------------------------------------------

/// Days between the civil date and the Unix epoch, by era arithmetic on a
/// year shifted four centuries up so that every intermediate value stays
/// nonnegative.
pub open spec fn days_from_epoch(y: int, m: int, d: int) -> int {
    let y2 = if m <= 2 {
        y + 400 - 1
    } else {
        y + 400
    };
    let era = y2 / 400;
    let yoe = y2 % 400;
    let mp = if m > 2 {
        m - 3
    } else {
        m + 9
    };
    let doy = (153 * mp + 2) / 5 + d - 1;
    let doe = yoe * 365 + yoe / 4 - yoe / 100 + doy;
    era * 146097 + doe - 146097 - 719468
}

/// The seconds since the Unix epoch a calendar value denotes: its civil
/// day and time of day, shifted back by its offset.
pub open spec fn stamp_seconds(d: DateStamp) -> int {
    let off = (d.off_hour * 60 + d.off_minute) * 60;
    days_from_epoch(d.year as int, d.month as int, d.day as int) * 86400 + d.hour * 3600
        + d.minute * 60 + d.second - (if d.off_negative {
        -(off as int)
    } else {
        off as int
    })
}

impl DateStamp {
    /// The instant as seconds since the Unix epoch.
    pub fn timestamp(&self) -> (r: i64)
        requires
            self.wf(),
        ensures
            r == stamp_seconds(*self),
    {
        let y: u64 = self.year as u64;
        let m: u64 = self.month as u64;
        let da: u64 = self.day as u64;
        let y2: u64 = if m <= 2 {
            y + 400 - 1
        } else {
            y + 400
        };
        let era: u64 = y2 / 400;
        let yoe: u64 = y2 % 400;
        let mp: u64 = if m > 2 {
            m - 3
        } else {
            m + 9
        };
        let doy: u64 = (153 * mp + 2) / 5 + da - 1;
        let doe: u64 = yoe * 365 + yoe / 4 - yoe / 100 + doy;
        proof {
            assert(era <= 26) by (nonlinear_arith)
                requires
                    era == y2 / 400,
                    y2 <= 10399,
            ;
            assert(yoe <= 399) by (nonlinear_arith)
                requires
                    yoe == y2 % 400,
            ;
            assert(doy <= 400);
            assert(doe <= 399 * 365 + 399 + 400);
        }
        let shifted: u64 = era * 146097 + doe;
        let days: i64 = (shifted as i64) - 146097 - 719468;
        let tod: i64 = (self.hour as i64) * 3600 + (self.minute as i64) * 60 + (
        self.second as i64);
        let off: i64 = ((self.off_hour as i64) * 60 + (self.off_minute as i64)) * 60;
        let off_signed: i64 = if self.off_negative {
            -off
        } else {
            off
        };
        days * 86400 + tod - off_signed
    }
}

// ---------------------------------------------------------------------------
// The format and the parse are inverse
// ---------------------------------------------------------------------------

/// A digit character carries its digit back.
proof fn lemma_digit_char(x: nat)
    requires
        x < 10,
    ensures
        is_digit(digit_char(x)),
        crate::text::digit_val(digit_char(x)) == x,
{
}

/// Two zero-padded digits read back as the number they were written from.
proof fn lemma_two_digits_roundtrip(s: Seq<char>, i: int, n: int)
    requires
        0 <= n < 100,
        0 <= i,
        i + 2 <= s.len(),
        s[i] == digit_char((n / 10) as nat),
        s[i + 1] == digit_char((n % 10) as nat),
    ensures
        two_digits_at(s, i) == Some(n as u32),
{
    lemma_digit_char((n / 10) as nat);
    lemma_digit_char((n % 10) as nat);
}

/// Four zero-padded digits read back as the number they were written from.
proof fn lemma_four_digits_roundtrip(s: Seq<char>, i: int, n: int)
    requires
        0 <= n < 10000,
        0 <= i,
        i + 4 <= s.len(),
        s[i] == digit_char((n / 1000) as nat),
        s[i + 1] == digit_char(((n / 100) % 10) as nat),
        s[i + 2] == digit_char(((n / 10) % 10) as nat),
        s[i + 3] == digit_char((n % 10) as nat),
    ensures
        four_digits_at(s, i) == Some(n as u32),
{
    lemma_digit_char((n / 1000) as nat);
    lemma_digit_char(((n / 100) % 10) as nat);
    lemma_digit_char(((n / 10) % 10) as nat);
    lemma_digit_char((n % 10) as nat);
    assert((n / 1000) * 1000 + ((n / 100) % 10) * 100 + ((n / 10) % 10) * 10 + n % 10 == n)
        by (nonlinear_arith)
        requires
            0 <= n < 10000,
    ;
}

/// Writing a well-formed calendar value in the fixed format and parsing
/// the text back yields the value itself: the round trip loses nothing,
/// so the re-formatted text denotes the identical instant.
#[verifier::rlimit(100)]
pub proof fn lemma_format_parse_roundtrip(d: DateStamp)
    requires
        stamp_wf(d),
    ensures
        parse_stamp(format_stamp(d)) == Some(d),
{
    reveal_strlit("Sun");
    reveal_strlit("Mon");
    reveal_strlit("Tue");
    reveal_strlit("Wed");
    reveal_strlit("Thu");
    reveal_strlit("Fri");
    reveal_strlit("Sat");
    reveal_strlit("Jan");
    reveal_strlit("Feb");
    reveal_strlit("Mar");
    reveal_strlit("Apr");
    reveal_strlit("May");
    reveal_strlit("Jun");
    reveal_strlit("Jul");
    reveal_strlit("Aug");
    reveal_strlit("Sep");
    reveal_strlit("Oct");
    reveal_strlit("Nov");
    reveal_strlit("Dec");
    assert("Sun"@ =~= seq!['S', 'u', 'n']);
    assert("Mon"@ =~= seq!['M', 'o', 'n']);
    assert("Tue"@ =~= seq!['T', 'u', 'e']);
    assert("Wed"@ =~= seq!['W', 'e', 'd']);
    assert("Thu"@ =~= seq!['T', 'h', 'u']);
    assert("Fri"@ =~= seq!['F', 'r', 'i']);
    assert("Sat"@ =~= seq!['S', 'a', 't']);
    assert("Jan"@ =~= seq!['J', 'a', 'n']);
    assert("Feb"@ =~= seq!['F', 'e', 'b']);
    assert("Mar"@ =~= seq!['M', 'a', 'r']);
    assert("Apr"@ =~= seq!['A', 'p', 'r']);
    assert("May"@ =~= seq!['M', 'a', 'y']);
    assert("Jun"@ =~= seq!['J', 'u', 'n']);
    assert("Jul"@ =~= seq!['J', 'u', 'l']);
    assert("Aug"@ =~= seq!['A', 'u', 'g']);
    assert("Sep"@ =~= seq!['S', 'e', 'p']);
    assert("Oct"@ =~= seq!['O', 'c', 't']);
    assert("Nov"@ =~= seq!['N', 'o', 'v']);
    assert("Dec"@ =~= seq!['D', 'e', 'c']);
    let s = format_stamp(d);
    let wn = weekday_name(d.weekday as int);
    let mn = month_name(d.month as int);
    assert(wn.len() == 3);
    assert(mn.len() == 3);
    assert(s.len() == 30);
    assert(s[3] == ' ');
    assert(s[7] == ' ');
    assert(s[10] == ' ');
    assert(s[13] == ':');
    assert(s[16] == ':');
    assert(s[19] == ' ');
    assert(s[25] == ' ');
    assert(s[20] == (if d.off_negative { '-' } else { '+' }));
    assert(s.subrange(0, 3) =~= wn);
    assert(s.subrange(4, 7) =~= mn);
    assert(weekday_of(wn) == Some(d.weekday)) by {
        if d.weekday == 0 {
            assert(wn == "Sun"@);
        } else if d.weekday == 1 {
            assert(wn == "Mon"@);
            assert(wn != "Sun"@);
        } else if d.weekday == 2 {
            assert(wn == "Tue"@);
            assert(wn != "Sun"@ && wn != "Mon"@);
        } else if d.weekday == 3 {
            assert(wn == "Wed"@);
            assert(wn != "Sun"@ && wn != "Mon"@ && wn != "Tue"@);
        } else if d.weekday == 4 {
            assert(wn == "Thu"@);
            assert(wn != "Sun"@ && wn != "Mon"@ && wn != "Tue"@ && wn != "Wed"@);
        } else if d.weekday == 5 {
            assert(wn == "Fri"@);
            assert(wn != "Sun"@ && wn != "Mon"@ && wn != "Tue"@ && wn != "Wed"@ && wn != "Thu"@);
        } else {
            assert(wn == "Sat"@);
            assert(wn != "Sun"@ && wn != "Mon"@ && wn != "Tue"@ && wn != "Wed"@ && wn != "Thu"@
                && wn != "Fri"@);
        }
    }
    assert(month_of(mn) == Some(d.month)) by {
        if d.month == 1 {
            assert(mn == "Jan"@);
        } else if d.month == 2 {
            assert(mn == "Feb"@ && mn != "Jan"@);
        } else if d.month == 3 {
            assert(mn == "Mar"@ && mn != "Jan"@ && mn != "Feb"@);
        } else if d.month == 4 {
            assert(mn == "Apr"@ && mn != "Jan"@ && mn != "Feb"@ && mn != "Mar"@);
        } else if d.month == 5 {
            assert(mn == "May"@ && mn != "Jan"@ && mn != "Feb"@ && mn != "Mar"@ && mn != "Apr"@);
        } else if d.month == 6 {
            assert(mn == "Jun"@ && mn != "Jan"@ && mn != "Feb"@ && mn != "Mar"@ && mn != "Apr"@
                && mn != "May"@);
        } else if d.month == 7 {
            assert(mn == "Jul"@ && mn != "Jan"@ && mn != "Feb"@ && mn != "Mar"@ && mn != "Apr"@
                && mn != "May"@ && mn != "Jun"@);
        } else if d.month == 8 {
            assert(mn == "Aug"@ && mn != "Jan"@ && mn != "Feb"@ && mn != "Mar"@ && mn != "Apr"@
                && mn != "May"@ && mn != "Jun"@ && mn != "Jul"@);
        } else if d.month == 9 {
            assert(mn == "Sep"@ && mn != "Jan"@ && mn != "Feb"@ && mn != "Mar"@ && mn != "Apr"@
                && mn != "May"@ && mn != "Jun"@ && mn != "Jul"@ && mn != "Aug"@);
        } else if d.month == 10 {
            assert(mn == "Oct"@ && mn != "Jan"@ && mn != "Feb"@ && mn != "Mar"@ && mn != "Apr"@
                && mn != "May"@ && mn != "Jun"@ && mn != "Jul"@ && mn != "Aug"@ && mn != "Sep"@);
        } else if d.month == 11 {
            assert(mn == "Nov"@ && mn != "Jan"@ && mn != "Feb"@ && mn != "Mar"@ && mn != "Apr"@
                && mn != "May"@ && mn != "Jun"@ && mn != "Jul"@ && mn != "Aug"@ && mn != "Sep"@
                && mn != "Oct"@);
        } else {
            assert(mn == "Dec"@ && mn != "Jan"@ && mn != "Feb"@ && mn != "Mar"@ && mn != "Apr"@
                && mn != "May"@ && mn != "Jun"@ && mn != "Jul"@ && mn != "Aug"@ && mn != "Sep"@
                && mn != "Oct"@ && mn != "Nov"@);
        }
    }
    assert(s[8] == digit_char((d.day as int / 10) as nat) && s[9] == digit_char(
        (d.day as int % 10) as nat,
    ));
    lemma_two_digits_roundtrip(s, 8, d.day as int);
    assert(s[11] == digit_char((d.hour as int / 10) as nat) && s[12] == digit_char(
        (d.hour as int % 10) as nat,
    ));
    lemma_two_digits_roundtrip(s, 11, d.hour as int);
    assert(s[14] == digit_char((d.minute as int / 10) as nat) && s[15] == digit_char(
        (d.minute as int % 10) as nat,
    ));
    lemma_two_digits_roundtrip(s, 14, d.minute as int);
    assert(s[17] == digit_char((d.second as int / 10) as nat) && s[18] == digit_char(
        (d.second as int % 10) as nat,
    ));
    lemma_two_digits_roundtrip(s, 17, d.second as int);
    assert(s[21] == digit_char((d.off_hour as int / 10) as nat) && s[22] == digit_char(
        (d.off_hour as int % 10) as nat,
    ));
    lemma_two_digits_roundtrip(s, 21, d.off_hour as int);
    assert(s[23] == digit_char((d.off_minute as int / 10) as nat) && s[24] == digit_char(
        (d.off_minute as int % 10) as nat,
    ));
    lemma_two_digits_roundtrip(s, 23, d.off_minute as int);
    assert(s[26] == digit_char((d.year as int / 1000) as nat) && s[27] == digit_char(
        ((d.year as int / 100) % 10) as nat,
    ) && s[28] == digit_char(((d.year as int / 10) % 10) as nat) && s[29] == digit_char(
        (d.year as int % 10) as nat,
    ));
    lemma_four_digits_roundtrip(s, 26, d.year as int);
    assert(parse_stamp(s) == Some(d));
}

/// A digit character is recovered from its digit value.
proof fn lemma_digit_char_inverse(c: char)
    requires
        is_digit(c),
    ensures
        digit_char(crate::text::digit_val(c)) == c,
{
}

/// A stamp the parser accepts is well-formed: every field lies in the
/// range the format can carry, so it can be written back.
pub proof fn lemma_parse_stamp_wf(s: Seq<char>, d: DateStamp)
    requires
        parse_stamp(s) == Some(d),
    ensures
        stamp_wf(d),
{
}

/// The parser accepts only the exact text the formatter writes for the
/// value it returns: the format is canonical, so parsing and re-formatting
/// reproduces the input text itself.
#[verifier::rlimit(100)]
pub proof fn lemma_parse_format_exact(s: Seq<char>, d: DateStamp)
    requires
        parse_stamp(s) == Some(d),
    ensures
        format_stamp(d) == s,
{
    reveal_strlit("Sun");
    reveal_strlit("Mon");
    reveal_strlit("Tue");
    reveal_strlit("Wed");
    reveal_strlit("Thu");
    reveal_strlit("Fri");
    reveal_strlit("Sat");
    reveal_strlit("Jan");
    reveal_strlit("Feb");
    reveal_strlit("Mar");
    reveal_strlit("Apr");
    reveal_strlit("May");
    reveal_strlit("Jun");
    reveal_strlit("Jul");
    reveal_strlit("Aug");
    reveal_strlit("Sep");
    reveal_strlit("Oct");
    reveal_strlit("Nov");
    reveal_strlit("Dec");
    let wn = weekday_name(d.weekday as int);
    let mn = month_name(d.month as int);
    assert(wn.len() == 3);
    assert(mn.len() == 3);
    assert(s.subrange(0, 3) == wn) by {
        let tok = s.subrange(0, 3);
        assert(weekday_of(tok) == Some(d.weekday));
    }
    assert(s.subrange(4, 7) == mn) by {
        let tok = s.subrange(4, 7);
        assert(month_of(tok) == Some(d.month));
    }
    assert(two_digits_at(s, 8) == Some(d.day));
    assert(two_digits_at(s, 11) == Some(d.hour));
    assert(two_digits_at(s, 14) == Some(d.minute));
    assert(two_digits_at(s, 17) == Some(d.second));
    assert(two_digits_at(s, 21) == Some(d.off_hour));
    assert(two_digits_at(s, 23) == Some(d.off_minute));
    assert(four_digits_at(s, 26) == Some(d.year));
    lemma_two_digit_text(s, 8, d.day as int);
    lemma_two_digit_text(s, 11, d.hour as int);
    lemma_two_digit_text(s, 14, d.minute as int);
    lemma_two_digit_text(s, 17, d.second as int);
    lemma_two_digit_text(s, 21, d.off_hour as int);
    lemma_two_digit_text(s, 23, d.off_minute as int);
    lemma_four_digit_text(s, 26, d.year as int);
    assert(format_stamp(d) =~= s);
}

/// Two digit characters that denote a number are exactly its zero-padded
/// rendering.
proof fn lemma_two_digit_text(s: Seq<char>, i: int, n: int)
    requires
        0 <= i,
        i + 2 <= s.len(),
        two_digits_at(s, i) == Some(n as u32),
        0 <= n < 100,
        n == crate::text::digit_val(s[i]) * 10 + crate::text::digit_val(s[i + 1]),
    ensures
        s[i] == digit_char((n / 10) as nat),
        s[i + 1] == digit_char((n % 10) as nat),
{
    lemma_digit_char_inverse(s[i]);
    lemma_digit_char_inverse(s[i + 1]);
    assert(n / 10 == crate::text::digit_val(s[i]) && n % 10 == crate::text::digit_val(s[i + 1]))
        by (nonlinear_arith)
        requires
            n == crate::text::digit_val(s[i]) * 10 + crate::text::digit_val(s[i + 1]),
            crate::text::digit_val(s[i]) < 10,
            crate::text::digit_val(s[i + 1]) < 10,
    ;
}

/// Four digit characters that denote a number are exactly its zero-padded
/// rendering.
proof fn lemma_four_digit_text(s: Seq<char>, i: int, n: int)
    requires
        0 <= i,
        i + 4 <= s.len(),
        four_digits_at(s, i) == Some(n as u32),
        0 <= n < 10000,
        n == crate::text::digit_val(s[i]) * 1000 + crate::text::digit_val(s[i + 1]) * 100
            + crate::text::digit_val(s[i + 2]) * 10 + crate::text::digit_val(s[i + 3]),
    ensures
        s[i] == digit_char((n / 1000) as nat),
        s[i + 1] == digit_char(((n / 100) % 10) as nat),
        s[i + 2] == digit_char(((n / 10) % 10) as nat),
        s[i + 3] == digit_char((n % 10) as nat),
{
    lemma_digit_char_inverse(s[i]);
    lemma_digit_char_inverse(s[i + 1]);
    lemma_digit_char_inverse(s[i + 2]);
    lemma_digit_char_inverse(s[i + 3]);
    assert(n / 1000 == crate::text::digit_val(s[i]) && (n / 100) % 10 == crate::text::digit_val(
        s[i + 1],
    ) && (n / 10) % 10 == crate::text::digit_val(s[i + 2]) && n % 10 == crate::text::digit_val(
        s[i + 3],
    ))
        by (nonlinear_arith)
        requires
            n == crate::text::digit_val(s[i]) * 1000 + crate::text::digit_val(s[i + 1]) * 100
                + crate::text::digit_val(s[i + 2]) * 10 + crate::text::digit_val(s[i + 3]),
            crate::text::digit_val(s[i]) < 10,
            crate::text::digit_val(s[i + 1]) < 10,
            crate::text::digit_val(s[i + 2]) < 10,
            crate::text::digit_val(s[i + 3]) < 10,
    ;
}

} // verus!


