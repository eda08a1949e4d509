use vstd::prelude::*;
use vstd::string::StringExecFns;

verus! {

/// A calendar date in the Gregorian calendar. Years are kept within four
/// digits so every date formats to a fixed-width field.
#[derive(Clone, Copy, PartialEq, Eq, Structural, Debug)]
pub struct Date {
    pub year: u64,
    pub month: u64,
    pub day: u64,
}

/// A wall-clock time of day.
#[derive(Clone, Copy, PartialEq, Eq, Structural, Debug)]
pub struct Time {
    pub hour: u64,
    pub minute: u64,
    pub second: u64,
}

/// A point in time, date and time of day together. All values handed into
/// one run are expected in the council's single local offset, so comparing
/// two of them field-wise agrees with comparing the instants they name.
#[derive(Clone, Copy, PartialEq, Eq, Structural, Debug)]
pub struct DateTime {
    pub date: Date,
    pub time: Time,
}

pub open spec fn is_leap_year(year: int) -> bool {
    year % 4 == 0 && (year % 100 != 0 || year % 400 == 0)
}

pub open spec fn days_in_month(year: int, month: int) -> int {
    if month == 2 {
        if is_leap_year(year) {
            29
        } else {
            28
        }
    } else if month == 4 || month == 6 || month == 9 || month == 11 {
        30
    } else {
        31
    }
}

pub open spec fn date_valid(d: Date) -> bool {
    &&& 1 <= d.year <= 9999
    &&& 1 <= d.month <= 12
    &&& 1 <= d.day <= days_in_month(d.year as int, d.month as int)
}

pub open spec fn time_valid(t: Time) -> bool {
    t.hour < 24 && t.minute < 60 && t.second < 60
}

pub open spec fn datetime_valid(dt: DateTime) -> bool {
    date_valid(dt.date) && time_valid(dt.time)
}

/// A single key that orders date-times exactly as the field-wise
/// lexicographic order does, as long as both are valid.
pub open spec fn datetime_key(dt: DateTime) -> int {
    ((((dt.date.year * 13 + dt.date.month) * 32 + dt.date.day) * 24 + dt.time.hour) * 60
        + dt.time.minute) * 60 + dt.time.second
}

/// The last representable date; stepping past it is refused.
pub open spec fn is_max_date(d: Date) -> bool {
    d.year == 9999 && d.month == 12 && d.day == 31
}

pub open spec fn spec_next_day(d: Date) -> Date {
    if d.day < days_in_month(d.year as int, d.month as int) {
        Date { year: d.year, month: d.month, day: (d.day + 1) as u64 }
    } else if d.month < 12 {
        Date { year: d.year, month: (d.month + 1) as u64, day: 1 }
    } else {
        Date { year: (d.year + 1) as u64, month: 1, day: 1 }
    }
}

/// `n` calendar days after `d`, or `None` where that would leave the
/// representable range.
pub open spec fn spec_add_days(d: Date, n: nat) -> Option<Date>
    decreases n,
{
    if n == 0 {
        Some(d)
    } else if is_max_date(d) {
        None
    } else {
        spec_add_days(spec_next_day(d), (n - 1) as nat)
    }
}

pub proof fn lemma_next_day_valid(d: Date)
    requires
        date_valid(d),
        !is_max_date(d),
    ensures
        date_valid(spec_next_day(d)),
{
}

fn days_in_month_exec(year: u64, month: u64) -> (r: u64)
    requires
        1 <= month <= 12,
    ensures
        r == days_in_month(year as int, month as int),
{
    if month == 2 {
        if year % 4 == 0 && (year % 100 != 0 || year % 400 == 0) {
            29
        } else {
            28
        }
    } else if month == 4 || month == 6 || month == 9 || month == 11 {
        30
    } else {
        31
    }
}

pub fn next_day(d: Date) -> (r: Date)
    requires
        date_valid(d),
        !is_max_date(d),
    ensures
        r == spec_next_day(d),
        date_valid(r),
{
    let dim = days_in_month_exec(d.year, d.month);
    if d.day < dim {
        Date { year: d.year, month: d.month, day: d.day + 1 }
    } else if d.month < 12 {
        Date { year: d.year, month: d.month + 1, day: 1 }
    } else {
        Date { year: d.year + 1, month: 1, day: 1 }
    }
}

pub proof fn lemma_spec_add_days_valid(d: Date, n: nat)
    requires
        date_valid(d),
    ensures
        spec_add_days(d, n) matches Some(x) ==> date_valid(x),
    decreases n,
{
    if n > 0 && !is_max_date(d) {
        lemma_next_day_valid(d);
        lemma_spec_add_days_valid(spec_next_day(d), (n - 1) as nat);
    }
}

pub fn add_days(d: Date, n: u64) -> (r: Option<Date>)
    requires
        date_valid(d),
    ensures
        r == spec_add_days(d, n as nat),
        r matches Some(x) ==> date_valid(x),
{
    let mut cur = d;
    let mut i: u64 = 0;
    while i < n
        invariant
            0 <= i <= n,
            date_valid(cur),
            spec_add_days(cur, (n - i) as nat) == spec_add_days(d, n as nat),
        decreases n - i,
    {
        if cur.year == 9999 && cur.month == 12 && cur.day == 31 {
            return None;
        }
        cur = next_day(cur);
        i = i + 1;
    }
    Some(cur)
}

/// `a` comes after `b` in the calendar: the most significant differing
/// field decides.
pub open spec fn datetime_lex_after(a: DateTime, b: DateTime) -> bool {
    if a.date.year != b.date.year {
        a.date.year > b.date.year
    } else if a.date.month != b.date.month {
        a.date.month > b.date.month
    } else if a.date.day != b.date.day {
        a.date.day > b.date.day
    } else if a.time.hour != b.time.hour {
        a.time.hour > b.time.hour
    } else if a.time.minute != b.time.minute {
        a.time.minute > b.time.minute
    } else {
        a.time.second > b.time.second
    }
}

/// The single comparison key orders valid date-times exactly as the
/// calendar fields do.
pub proof fn lemma_key_orders_fields(a: DateTime, b: DateTime)
    requires
        datetime_valid(a),
        datetime_valid(b),
    ensures
        (datetime_key(a) > datetime_key(b)) <==> datetime_lex_after(a, b),
{
}

/// Field-wise comparison: is `a` strictly after `b`?
pub fn datetime_after(a: &DateTime, b: &DateTime) -> (r: bool)
    requires
        datetime_valid(*a),
        datetime_valid(*b),
    ensures
        r == (datetime_key(*a) > datetime_key(*b)),
{
    let ka = ((((a.date.year * 13 + a.date.month) * 32 + a.date.day) * 24 + a.time.hour) * 60
        + a.time.minute) * 60 + a.time.second;
    let kb = ((((b.date.year * 13 + b.date.month) * 32 + b.date.day) * 24 + b.time.hour) * 60
        + b.time.minute) * 60 + b.time.second;
    ka > kb
}

pub open spec fn spec_digit(n: int) -> char {
    if n == 0 {
        '0'
    } else if n == 1 {
        '1'
    } else if n == 2 {
        '2'
    } else if n == 3 {
        '3'
    } else if n == 4 {
        '4'
    } else if n == 5 {
        '5'
    } else if n == 6 {
        '6'
    } else if n == 7 {
        '7'
    } else if n == 8 {
        '8'
    } else {
        '9'
    }
}

fn digit_str(n: u64) -> (r: &'static str)
    requires
        n < 10,
    ensures
        r@ == seq![spec_digit(n as int)],
{
    if n == 0 {
        proof {
            reveal_strlit("0");
            assert("0"@ =~= seq!['0']);
        }
        "0"
    } else if n == 1 {
        proof {
            reveal_strlit("1");
            assert("1"@ =~= seq!['1']);
        }
        "1"
    } else if n == 2 {
        proof {
            reveal_strlit("2");
            assert("2"@ =~= seq!['2']);
        }
        "2"
    } else if n == 3 {
        proof {
            reveal_strlit("3");
            assert("3"@ =~= seq!['3']);
        }
        "3"
    } else if n == 4 {
        proof {
            reveal_strlit("4");
            assert("4"@ =~= seq!['4']);
        }
        "4"
    } else if n == 5 {
        proof {
            reveal_strlit("5");
            assert("5"@ =~= seq!['5']);
        }
        "5"
    } else if n == 6 {
        proof {
            reveal_strlit("6");
            assert("6"@ =~= seq!['6']);
        }
        "6"
    } else if n == 7 {
        proof {
            reveal_strlit("7");
            assert("7"@ =~= seq!['7']);
        }
        "7"
    } else if n == 8 {
        proof {
            reveal_strlit("8");
            assert("8"@ =~= seq!['8']);
        }
        "8"
    } else {
        proof {
            reveal_strlit("9");
            assert("9"@ =~= seq!['9']);
        }
        "9"
    }
}

/// Two decimal digits, zero padded.
pub open spec fn spec_pad2(n: int) -> Seq<char> {
    seq![spec_digit(n / 10), spec_digit(n % 10)]
}

/// Four decimal digits, zero padded.
pub open spec fn spec_pad4(n: int) -> Seq<char> {
    seq![
        spec_digit(n / 1000),
        spec_digit((n / 100) % 10),
        spec_digit((n / 10) % 10),
        spec_digit(n % 10),
    ]
}

pub fn pad2(n: u64) -> (r: String)
    requires
        n < 100,
    ensures
        r@ == spec_pad2(n as int),
{
    let mut s = String::new();
    s.append(digit_str(n / 10));
    s.append(digit_str(n % 10));
    proof {
        assert(s@ =~= spec_pad2(n as int));
    }
    s
}

pub fn pad4(n: u64) -> (r: String)
    requires
        n < 10000,
    ensures
        r@ == spec_pad4(n as int),
{
    let mut s = String::new();
    s.append(digit_str(n / 1000));
    s.append(digit_str((n / 100) % 10));
    s.append(digit_str((n / 10) % 10));
    s.append(digit_str(n % 10));
    proof {
        assert(s@ =~= spec_pad4(n as int));
    }
    s
}

/// An unpadded decimal rendering.
pub open spec fn spec_dec(n: int) -> Seq<char>
    decreases n,
{
    if n < 10 {
        seq![spec_digit(n)]
    } else {
        spec_dec(n / 10).push(spec_digit(n % 10))
    }
}

pub fn dec_string(n: u64) -> (r: String)
    ensures
        r@ == spec_dec(n as int),
    decreases n,
{
    if n < 10 {
        let mut s = String::new();
        s.append(digit_str(n));
        proof {
            assert(s@ =~= spec_dec(n as int));
        }
        s
    } else {
        let mut s = dec_string(n / 10);
        s.append(digit_str(n % 10));
        proof {
            assert(s@ =~= spec_dec(n as int));
        }
        s
    }
}

/// `YYYY-MM-DD`.
pub open spec fn spec_date_iso(d: Date) -> Seq<char> {
    spec_pad4(d.year as int) + seq!['-'] + spec_pad2(d.month as int) + seq!['-'] + spec_pad2(
        d.day as int,
    )
}

/// `DD.MM.YYYY`.
pub open spec fn spec_date_german(d: Date) -> Seq<char> {
    spec_pad2(d.day as int) + seq!['.'] + spec_pad2(d.month as int) + seq!['.'] + spec_pad4(
        d.year as int,
    )
}

/// `DD.MM.`, the short day-month form events are listed with.
pub open spec fn spec_day_month(d: Date) -> Seq<char> {
    spec_pad2(d.day as int) + seq!['.'] + spec_pad2(d.month as int) + seq!['.']
}

/// `HH:MM`.
pub open spec fn spec_hour_minute(t: Time) -> Seq<char> {
    spec_pad2(t.hour as int) + seq![':'] + spec_pad2(t.minute as int)
}

/// `YYYY-MM-DDTHH:MM:SS`, the machine-readable timestamp.
pub open spec fn spec_datetime_machine(dt: DateTime) -> Seq<char> {
    spec_date_iso(dt.date) + seq!['T'] + spec_pad2(dt.time.hour as int) + seq![':'] + spec_pad2(
        dt.time.minute as int,
    ) + seq![':'] + spec_pad2(dt.time.second as int)
}

pub fn format_date_iso(d: &Date) -> (r: String)
    requires
        date_valid(*d),
    ensures
        r@ == spec_date_iso(*d),
{
    let mut s = pad4(d.year);
    s.append("-");
    let m = pad2(d.month);
    s.append(m.as_str());
    s.append("-");
    let dd = pad2(d.day);
    s.append(dd.as_str());
    proof {
        reveal_strlit("-");
        assert("-"@ =~= seq!['-']);
        assert(s@ =~= spec_date_iso(*d));
    }
    s
}

pub fn format_date_german(d: &Date) -> (r: String)
    requires
        date_valid(*d),
    ensures
        r@ == spec_date_german(*d),
{
    let mut s = pad2(d.day);
    s.append(".");
    let m = pad2(d.month);
    s.append(m.as_str());
    s.append(".");
    let y = pad4(d.year);
    s.append(y.as_str());
    proof {
        reveal_strlit(".");
        assert("."@ =~= seq!['.']);
        assert(s@ =~= spec_date_german(*d));
    }
    s
}

pub fn format_day_month(d: &Date) -> (r: String)
    requires
        date_valid(*d),
    ensures
        r@ == spec_day_month(*d),
{
    let mut s = pad2(d.day);
    s.append(".");
    let m = pad2(d.month);
    s.append(m.as_str());
    s.append(".");
    proof {
        reveal_strlit(".");
        assert("."@ =~= seq!['.']);
        assert(s@ =~= spec_day_month(*d));
    }
    s
}

pub fn format_hour_minute(t: &Time) -> (r: String)
    requires
        time_valid(*t),
    ensures
        r@ == spec_hour_minute(*t),
{
    let mut s = pad2(t.hour);
    s.append(":");
    let m = pad2(t.minute);
    s.append(m.as_str());
    proof {
        reveal_strlit(":");
        assert(":"@ =~= seq![':']);
        assert(s@ =~= spec_hour_minute(*t));
    }
    s
}

pub fn format_datetime_machine(dt: &DateTime) -> (r: String)
    requires
        datetime_valid(*dt),
    ensures
        r@ == spec_datetime_machine(*dt),
{
    let mut s = format_date_iso(&dt.date);
    s.append("T");
    let h = pad2(dt.time.hour);
    s.append(h.as_str());
    s.append(":");
    let m = pad2(dt.time.minute);
    s.append(m.as_str());
    s.append(":");
    let sec = pad2(dt.time.second);
    s.append(sec.as_str());
    proof {
        reveal_strlit("T");
        reveal_strlit(":");
        assert("T"@ =~= seq!['T']);
        assert(":"@ =~= seq![':']);
        assert(s@ =~= spec_datetime_machine(*dt));
    }
    s
}

fn char_digit(c: char) -> (r: Option<u64>)
    ensures
        match r {
            Some(v) => v < 10 && c == spec_digit(v as int),
            None => forall|v: int| 0 <= v < 10 ==> c != spec_digit(v),
        },
{
    match c {
        '0' => Some(0),
        '1' => Some(1),
        '2' => Some(2),
        '3' => Some(3),
        '4' => Some(4),
        '5' => Some(5),
        '6' => Some(6),
        '7' => Some(7),
        '8' => Some(8),
        '9' => Some(9),
        _ => None,
    }
}

/// The ten characters `YYYY-MM-DD` over raw field values.
pub open spec fn spec_iso_fields(y: int, m: int, d: int) -> Seq<char> {
    spec_pad4(y) + seq!['-'] + spec_pad2(m) + seq!['-'] + spec_pad2(d)
}

pub proof fn lemma_date_iso_fields(d: Date)
    ensures
        spec_date_iso(d) == spec_iso_fields(d.year as int, d.month as int, d.day as int),
{
}

proof fn lemma_digit_injective()
    ensures
        forall|a: int, b: int|
            0 <= a < 10 && 0 <= b < 10 && a != b ==> spec_digit(a) != spec_digit(b),
{
}

proof fn lemma_iso_fields_chars(y: int, m: int, d: int)
    ensures
        spec_iso_fields(y, m, d).len() == 10,
        spec_iso_fields(y, m, d)[0] == spec_digit(y / 1000),
        spec_iso_fields(y, m, d)[1] == spec_digit((y / 100) % 10),
        spec_iso_fields(y, m, d)[2] == spec_digit((y / 10) % 10),
        spec_iso_fields(y, m, d)[3] == spec_digit(y % 10),
        spec_iso_fields(y, m, d)[4] == '-',
        spec_iso_fields(y, m, d)[5] == spec_digit(m / 10),
        spec_iso_fields(y, m, d)[6] == spec_digit(m % 10),
        spec_iso_fields(y, m, d)[7] == '-',
        spec_iso_fields(y, m, d)[8] == spec_digit(d / 10),
        spec_iso_fields(y, m, d)[9] == spec_digit(d % 10),
{
}

/// The digits that `spec_pad4` prints recombine to the printed value.
proof fn lemma_recompose4(v0: int, v1: int, v2: int, v3: int)
    requires
        0 <= v0 < 10,
        0 <= v1 < 10,
        0 <= v2 < 10,
        0 <= v3 < 10,
    ensures
        (1000 * v0 + 100 * v1 + 10 * v2 + v3) / 1000 == v0,
        ((1000 * v0 + 100 * v1 + 10 * v2 + v3) / 100) % 10 == v1,
        ((1000 * v0 + 100 * v1 + 10 * v2 + v3) / 10) % 10 == v2,
        (1000 * v0 + 100 * v1 + 10 * v2 + v3) % 10 == v3,
{
    let y = 1000 * v0 + 100 * v1 + 10 * v2 + v3;
    vstd::arithmetic::div_mod::lemma_fundamental_div_mod_converse(y, 1000, v0, 100 * v1 + 10 * v2 + v3);
    vstd::arithmetic::div_mod::lemma_fundamental_div_mod_converse(y, 100, 10 * v0 + v1, 10 * v2 + v3);
    vstd::arithmetic::div_mod::lemma_fundamental_div_mod_converse(y, 10, 100 * v0 + 10 * v1 + v2, v3);
    vstd::arithmetic::div_mod::lemma_fundamental_div_mod_converse(10 * v0 + v1, 10, v0, v1);
    vstd::arithmetic::div_mod::lemma_fundamental_div_mod_converse(
        100 * v0 + 10 * v1 + v2,
        10,
        10 * v0 + v1,
        v2,
    );
}

/// As above, for the two-digit fields.
proof fn lemma_recompose2(v0: int, v1: int)
    requires
        0 <= v0 < 10,
        0 <= v1 < 10,
    ensures
        (10 * v0 + v1) / 10 == v0,
        (10 * v0 + v1) % 10 == v1,
{
    vstd::arithmetic::div_mod::lemma_fundamental_div_mod_converse(10 * v0 + v1, 10, v0, v1);
}

proof fn lemma_decompose4(y: int)
    requires
        0 <= y < 10000,
    ensures
        y == 1000 * (y / 1000) + 100 * ((y / 100) % 10) + 10 * ((y / 10) % 10) + y % 10,
        0 <= y / 1000 < 10,
        0 <= (y / 100) % 10 < 10,
        0 <= (y / 10) % 10 < 10,
        0 <= y % 10 < 10,
{
    vstd::arithmetic::div_mod::lemma_fundamental_div_mod(y, 10);
    vstd::arithmetic::div_mod::lemma_fundamental_div_mod(y / 10, 10);
    vstd::arithmetic::div_mod::lemma_div_denominator(y, 10, 10);
    vstd::arithmetic::div_mod::lemma_fundamental_div_mod(y / 100, 10);
    vstd::arithmetic::div_mod::lemma_div_denominator(y, 100, 10);
    vstd::arithmetic::div_mod::lemma_mod_division_less_than_divisor(y, 10);
    vstd::arithmetic::div_mod::lemma_mod_division_less_than_divisor(y / 10, 10);
    vstd::arithmetic::div_mod::lemma_mod_division_less_than_divisor(y / 100, 10);
}

proof fn lemma_decompose2(m: int)
    requires
        0 <= m < 100,
    ensures
        m == 10 * (m / 10) + m % 10,
        0 <= m / 10 < 10,
        0 <= m % 10 < 10,
{
    vstd::arithmetic::div_mod::lemma_fundamental_div_mod(m, 10);
    vstd::arithmetic::div_mod::lemma_mod_division_less_than_divisor(m, 10);
}

proof fn lemma_iso_fields_injective(y1: int, m1: int, d1: int, y2: int, m2: int, d2: int)
    requires
        0 <= y1 < 10000,
        0 <= m1 < 100,
        0 <= d1 < 100,
        0 <= y2 < 10000,
        0 <= m2 < 100,
        0 <= d2 < 100,
        spec_iso_fields(y1, m1, d1) == spec_iso_fields(y2, m2, d2),
    ensures
        y1 == y2,
        m1 == m2,
        d1 == d2,
{
    lemma_iso_fields_chars(y1, m1, d1);
    lemma_iso_fields_chars(y2, m2, d2);
    lemma_digit_injective();
    lemma_decompose4(y1);
    lemma_decompose4(y2);
    lemma_decompose2(m1);
    lemma_decompose2(m2);
    lemma_decompose2(d1);
    lemma_decompose2(d2);
}

/// No string of another length is an ISO date field rendering.
proof fn lemma_iso_no_match_len(s: Seq<char>)
    requires
        s.len() != 10,
    ensures
        forall|y: int, m: int, d: int|
            0 <= y < 10000 && 0 <= m < 100 && 0 <= d < 100 ==> s != spec_iso_fields(y, m, d),
{
    assert forall|y: int, m: int, d: int|
        0 <= y < 10000 && 0 <= m < 100 && 0 <= d < 100 implies s != spec_iso_fields(y, m, d) by {
        lemma_iso_fields_chars(y, m, d);
    }
}

/// A non-digit character at a digit position rules the shape out.
proof fn lemma_iso_no_match_digit(s: Seq<char>, i: int)
    requires
        s.len() == 10,
        i == 0 || i == 1 || i == 2 || i == 3 || i == 5 || i == 6 || i == 8 || i == 9,
        forall|v: int| 0 <= v < 10 ==> s[i] != spec_digit(v),
    ensures
        forall|y: int, m: int, d: int|
            0 <= y < 10000 && 0 <= m < 100 && 0 <= d < 100 ==> s != spec_iso_fields(y, m, d),
{
    assert forall|y: int, m: int, d: int|
        0 <= y < 10000 && 0 <= m < 100 && 0 <= d < 100 implies s != spec_iso_fields(y, m, d) by {
        lemma_iso_fields_chars(y, m, d);
        lemma_decompose4(y);
        lemma_decompose2(m);
        lemma_decompose2(d);
    }
}

/// A separator position that does not carry a hyphen rules the shape out.
proof fn lemma_iso_no_match_sep(s: Seq<char>, i: int)
    requires
        s.len() == 10,
        i == 4 || i == 7,
        s[i] != '-',
    ensures
        forall|y: int, m: int, d: int|
            0 <= y < 10000 && 0 <= m < 100 && 0 <= d < 100 ==> s != spec_iso_fields(y, m, d),
{
    assert forall|y: int, m: int, d: int|
        0 <= y < 10000 && 0 <= m < 100 && 0 <= d < 100 implies s != spec_iso_fields(y, m, d) by {
        lemma_iso_fields_chars(y, m, d);
    }
}

/// Ten characters of the right shape are the rendering of their digits.
proof fn lemma_iso_build(
    s: Seq<char>,
    v0: int,
    v1: int,
    v2: int,
    v3: int,
    v5: int,
    v6: int,
    v8: int,
    v9: int,
)
    requires
        s.len() == 10,
        0 <= v0 < 10,
        0 <= v1 < 10,
        0 <= v2 < 10,
        0 <= v3 < 10,
        0 <= v5 < 10,
        0 <= v6 < 10,
        0 <= v8 < 10,
        0 <= v9 < 10,
        s[0] == spec_digit(v0),
        s[1] == spec_digit(v1),
        s[2] == spec_digit(v2),
        s[3] == spec_digit(v3),
        s[4] == '-',
        s[5] == spec_digit(v5),
        s[6] == spec_digit(v6),
        s[7] == '-',
        s[8] == spec_digit(v8),
        s[9] == spec_digit(v9),
    ensures
        s == spec_iso_fields(
            1000 * v0 + 100 * v1 + 10 * v2 + v3,
            10 * v5 + v6,
            10 * v8 + v9,
        ),
{
    let y = 1000 * v0 + 100 * v1 + 10 * v2 + v3;
    let m = 10 * v5 + v6;
    let d = 10 * v8 + v9;
    lemma_iso_fields_chars(y, m, d);
    lemma_recompose4(v0, v1, v2, v3);
    lemma_recompose2(v5, v6);
    lemma_recompose2(v8, v9);
    assert(s =~= spec_iso_fields(y, m, d));
}

/// Reads the raw `YYYY-MM-DD` shape without judging the calendar values.
fn read_iso_fields(s: &str) -> (r: Option<(u64, u64, u64)>)
    ensures
        match r {
            Some(f) => f.0 < 10000 && f.1 < 100 && f.2 < 100 && s@ == spec_iso_fields(
                f.0 as int,
                f.1 as int,
                f.2 as int,
            ),
            None => forall|y: int, m: int, d: int|
                0 <= y < 10000 && 0 <= m < 100 && 0 <= d < 100 ==> s@ != spec_iso_fields(y, m, d),
        },
{
    if s.unicode_len() != 10 {
        proof {
            lemma_iso_no_match_len(s@);
        }
        return None;
    }
    let v0 = match char_digit(s.get_char(0)) {
        Some(v) => v,
        None => {
            proof {
                lemma_iso_no_match_digit(s@, 0);
            }
            return None;
        },
    };
    let v1 = match char_digit(s.get_char(1)) {
        Some(v) => v,
        None => {
            proof {
                lemma_iso_no_match_digit(s@, 1);
            }
            return None;
        },
    };
    let v2 = match char_digit(s.get_char(2)) {
        Some(v) => v,
        None => {
            proof {
                lemma_iso_no_match_digit(s@, 2);
            }
            return None;
        },
    };
    let v3 = match char_digit(s.get_char(3)) {
        Some(v) => v,
        None => {
            proof {
                lemma_iso_no_match_digit(s@, 3);
            }
            return None;
        },
    };
    if s.get_char(4) != '-' {
        proof {
            lemma_iso_no_match_sep(s@, 4);
        }
        return None;
    }
    let v5 = match char_digit(s.get_char(5)) {
        Some(v) => v,
        None => {
            proof {
                lemma_iso_no_match_digit(s@, 5);
            }
            return None;
        },
    };
    let v6 = match char_digit(s.get_char(6)) {
        Some(v) => v,
        None => {
            proof {
                lemma_iso_no_match_digit(s@, 6);
            }
            return None;
        },
    };
    if s.get_char(7) != '-' {
        proof {
            lemma_iso_no_match_sep(s@, 7);
        }
        return None;
    }
    let v8 = match char_digit(s.get_char(8)) {
        Some(v) => v,
        None => {
            proof {
                lemma_iso_no_match_digit(s@, 8);
            }
            return None;
        },
    };
    let v9 = match char_digit(s.get_char(9)) {
        Some(v) => v,
        None => {
            proof {
                lemma_iso_no_match_digit(s@, 9);
            }
            return None;
        },
    };
    let year = v0 * 1000 + v1 * 100 + v2 * 10 + v3;
    let month = v5 * 10 + v6;
    let day = v8 * 10 + v9;
    proof {
        lemma_iso_build(
            s@,
            v0 as int,
            v1 as int,
            v2 as int,
            v3 as int,
            v5 as int,
            v6 as int,
            v8 as int,
            v9 as int,
        );
    }
    Some((year, month, day))
}

/// Digits are ordinary visible characters.
pub proof fn lemma_digit_plain()
    ensures
        forall|n: int| spec_digit(n) != '\n',
{
}

/// The ISO rendering of a date never contains a line break.
pub proof fn lemma_date_iso_no_newline(d: Date)
    ensures
        spec_date_iso(d).len() == 10,
        forall|j: int| 0 <= j < 10 ==> spec_date_iso(d)[j] != '\n',
{
    lemma_date_iso_fields(d);
    lemma_iso_fields_chars(d.year as int, d.month as int, d.day as int);
    lemma_digit_plain();
}

/// The human-readable rendering of a date never contains a line break.
pub proof fn lemma_date_german_no_newline(d: Date)
    ensures
        spec_date_german(d).len() == 10,
        forall|j: int| 0 <= j < 10 ==> spec_date_german(d)[j] != '\n',
{
    lemma_digit_plain();
}

/// The machine timestamp never contains a line break.
pub proof fn lemma_machine_no_newline(dt: DateTime)
    ensures
        spec_datetime_machine(dt).len() == 19,
        forall|j: int| 0 <= j < 19 ==> spec_datetime_machine(dt)[j] != '\n',
{
    lemma_date_iso_no_newline(dt.date);
    lemma_digit_plain();
}

/// Two valid dates with the same rendering are the same date.
pub proof fn lemma_date_iso_injective(a: Date, b: Date)
    requires
        date_valid(a),
        date_valid(b),
        spec_date_iso(a) == spec_date_iso(b),
    ensures
        a == b,
{
    lemma_date_iso_fields(a);
    lemma_date_iso_fields(b);
    lemma_iso_fields_injective(
        a.year as int,
        a.month as int,
        a.day as int,
        b.year as int,
        b.month as int,
        b.day as int,
    );
}

/// The valid date a string renders, where there is one.
pub open spec fn spec_date_of_value(v: Seq<char>) -> Option<Date> {
    if exists|d: Date| date_valid(d) && spec_date_iso(d) == v {
        Some(choose|d: Date| date_valid(d) && spec_date_iso(d) == v)
    } else {
        None
    }
}

pub proof fn lemma_date_of_value_some(v: Seq<char>, d: Date)
    requires
        date_valid(d),
        spec_date_iso(d) == v,
    ensures
        spec_date_of_value(v) == Some(d),
{
    let w = choose|x: Date| date_valid(x) && spec_date_iso(x) == v;
    lemma_date_iso_injective(w, d);
}

/// Reads back exactly the strings that `spec_date_iso` produces for valid
/// dates, and nothing else.
pub fn parse_date_iso(s: &str) -> (r: Option<Date>)
    ensures
        match r {
            Some(d) => date_valid(d) && s@ == spec_date_iso(d),
            None => forall|d: Date| date_valid(d) ==> s@ != spec_date_iso(d),
        },
{
    let fields = read_iso_fields(s);
    match fields {
        None => {
            proof {
                assert forall|d: Date| date_valid(d) implies s@ != spec_date_iso(d) by {
                    lemma_date_iso_fields(d);
                }
            }
            None
        },
        Some((year, month, day)) => {
            let ok = if year < 1 || month < 1 || month > 12 || day < 1 {
                false
            } else {
                day <= days_in_month_exec(year, month)
            };
            if ok {
                let d = Date { year, month, day };
                proof {
                    lemma_date_iso_fields(d);
                }
                Some(d)
            } else {
                proof {
                    assert forall|d: Date| date_valid(d) implies s@ != spec_date_iso(d) by {
                        lemma_date_iso_fields(d);
                        if s@ == spec_date_iso(d) {
                            lemma_iso_fields_injective(
                                d.year as int,
                                d.month as int,
                                d.day as int,
                                year as int,
                                month as int,
                                day as int,
                            );
                        }
                    }
                }
                None
            }
        },
    }
}

} // verus!
