//! Timestamp titles: a note composed without a title is named after the local
//! time its editing finished, in the form `Oct 12, 2026 - 04:30pm`. The
//! formatting is exact and the parser reads such a title back.

use crate::numeral::{
    dec_rep, dec_val, digit_char, digit_val, is_digit, lemma_dec_val_leading_zero,
    lemma_dec_val_of_rep, lemma_digit_val_char, u64_to_string,
};
use vstd::prelude::*;

use chrono::{Datelike, Timelike};

verus! {

/// One local calendar time, at minute precision: what a timestamp title shows.
#[derive(Debug, Clone, Copy, PartialEq, Eq, Structural)]
pub struct TimeFields {
    pub year: i32,
    /// 1 to 12.
    pub month: u8,
    /// 1 to 31.
    pub day: u8,
    /// 0 to 23.
    pub hour: u8,
    /// 0 to 59.
    pub minute: u8,
}

impl TimeFields {
    pub open spec fn wf(self) -> bool {
        &&& 1 <= self.month <= 12
        &&& 1 <= self.day <= 31
        &&& self.hour <= 23
        &&& self.minute <= 59
    }
}

/// The three-letter abbreviation of a month.
pub open spec fn month_name(m: int) -> Seq<char> {
    if m == 1 {
        seq!['J', 'a', 'n']
    } else if m == 2 {
        seq!['F', 'e', 'b']
    } else if m == 3 {
        seq!['M', 'a', 'r']
    } else if m == 4 {
        seq!['A', 'p', 'r']
    } else if m == 5 {
        seq!['M', 'a', 'y']
    } else if m == 6 {
        seq!['J', 'u', 'n']
    } else if m == 7 {
        seq!['J', 'u', 'l']
    } else if m == 8 {
        seq!['A', 'u', 'g']
    } else if m == 9 {
        seq!['S', 'e', 'p']
    } else if m == 10 {
        seq!['O', 'c', 't']
    } else if m == 11 {
        seq!['N', 'o', 'v']
    } else if m == 12 {
        seq!['D', 'e', 'c']
    } else {
        Seq::empty()
    }
}

/// A number below 100, zero-padded to two digits.
pub open spec fn pad2(n: int) -> Seq<char> {
    seq![digit_char(n / 10), digit_char(n % 10)]
}

/// A number's decimal digits, zero-padded on the left to at least four.
pub open spec fn pad4(n: nat) -> Seq<char> {
    if n < 10 {
        seq!['0', '0', '0'] + dec_rep(n)
    } else if n < 100 {
        seq!['0', '0'] + dec_rep(n)
    } else if n < 1000 {
        seq!['0'] + dec_rep(n)
    } else {
        dec_rep(n)
    }
}

/// The year as printed: at least four digits, a leading minus for years
/// before year zero.
pub open spec fn year_chars(y: int) -> Seq<char> {
    if y >= 0 {
        pad4(y as nat)
    } else {
        seq!['-'] + pad4((-y) as nat)
    }
}

/// The hour on the 12-hour clock.
pub open spec fn h12_of(h: int) -> int {
    if h % 12 == 0 {
        12
    } else {
        h % 12
    }
}

/// Whether the hour falls in the second half of the day.
pub open spec fn is_pm(h: int) -> bool {
    h >= 12
}

pub open spec fn ampm_chars(pm: bool) -> Seq<char> {
    if pm {
        seq!['p', 'm']
    } else {
        seq!['a', 'm']
    }
}

/// The full timestamp title, e.g. `Oct 12, 2026 - 04:30pm`.
pub open spec fn ts_chars(f: TimeFields) -> Seq<char> {
    month_name(f.month as int) + seq![' '] + pad2(f.day as int) + seq![',', ' '] + year_chars(
        f.year as int,
    ) + seq![' ', '-', ' '] + pad2(h12_of(f.hour as int)) + seq![':'] + pad2(f.minute as int)
        + ampm_chars(is_pm(f.hour as int))
}

/// The three-letter name of a month.
fn month_str(m: u8) -> (r: &'static str)
    requires
        1 <= m <= 12,
    ensures
        r@ == month_name(m as int),
{
    proof {
        reveal_strlit("Jan");
        reveal_strlit("Feb");
        reveal_strlit("Mar");
        reveal_strlit("Apr");
        reveal_strlit("May");
        reveal_strlit("Jun");
        reveal_strlit("Jul");
        reveal_strlit("Aug");
        reveal_strlit("Sep");
        reveal_strlit("Oct");
        reveal_strlit("Nov");
        reveal_strlit("Dec");
    }
    let r = match m {
        1 => "Jan",
        2 => "Feb",
        3 => "Mar",
        4 => "Apr",
        5 => "May",
        6 => "Jun",
        7 => "Jul",
        8 => "Aug",
        9 => "Sep",
        10 => "Oct",
        11 => "Nov",
        _ => "Dec",
    };
    assert(r@ =~= month_name(m as int));
    r
}

/// Appends a number below 100 as two digits.
fn append_pad2(r: &mut String, n: u64)
    requires
        n < 100,
    ensures
        final(r)@ == old(r)@ + pad2(n as int),
{
    r.append(crate::numeral::digit_str(n / 10));
    r.append(crate::numeral::digit_str(n % 10));
    assert(r@ =~= old(r)@ + pad2(n as int));
}

/// Appends a number zero-padded to at least four digits.
fn append_pad4(r: &mut String, n: u64)
    ensures
        final(r)@ == old(r)@ + pad4(n as nat),
{
    proof {
        reveal_strlit("000");
        reveal_strlit("00");
        reveal_strlit("0");
    }
    if n < 10 {
        r.append("000");
    } else if n < 100 {
        r.append("00");
    } else if n < 1000 {
        r.append("0");
    }
    let num = u64_to_string(n);
    r.append(num.as_str());
    assert(r@ =~= old(r)@ + pad4(n as nat));
}

/// Renders a time as the timestamp title `ts_chars` describes.
pub fn format_timestamp(f: &TimeFields) -> (r: String)
    requires
        f.wf(),
    ensures
        r@ == ts_chars(*f),
{
    proof {
        reveal_strlit(" ");
        reveal_strlit(", ");
        reveal_strlit(" - ");
        reveal_strlit(":");
        reveal_strlit("-");
        reveal_strlit("am");
        reveal_strlit("pm");
    }
    let mut r = String::from_str(month_str(f.month));
    r.append(" ");
    append_pad2(&mut r, f.day as u64);
    r.append(", ");
    if f.year >= 0 {
        append_pad4(&mut r, f.year as u64);
    } else {
        r.append("-");
        let mag = -(f.year as i64);
        append_pad4(&mut r, mag as u64);
    }
    r.append(" - ");
    let h12: u64 = if f.hour % 12 == 0 {
        12
    } else {
        (f.hour % 12) as u64
    };
    assert(h12 as int == h12_of(f.hour as int));
    append_pad2(&mut r, h12);
    r.append(":");
    append_pad2(&mut r, f.minute as u64);
    if f.hour >= 12 {
        r.append("pm");
    } else {
        r.append("am");
    }
    assert(r@ =~= ts_chars(*f));
    r
}

/// Reading a two-digit rendering back yields the number.
pub proof fn lemma_dec_val_pad2(x: int)
    requires
        0 <= x < 100,
    ensures
        digit_val(pad2(x)[0]) * 10 + digit_val(pad2(x)[1]) == x,
        is_digit(pad2(x)[0]),
        is_digit(pad2(x)[1]),
{
    lemma_digit_val_char(x / 10);
    lemma_digit_val_char(x % 10);
}

/// Reading a four-digit rendering back yields the number, and the rendering
/// of a number below 10000 is exactly four digit characters.
pub proof fn lemma_dec_val_pad4(n: nat)
    requires
        n < 10000,
    ensures
        pad4(n).len() == 4,
        crate::numeral::all_digits(pad4(n)),
        dec_val(pad4(n)) == n,
{
    crate::numeral::lemma_dec_rep_len_bound(n);
    crate::numeral::lemma_dec_rep_digits(n);
    lemma_dec_val_of_rep(n);
    lemma_digit_val_char(0);
    if n < 10 {
        assert(pad4(n) =~= seq!['0'] + (seq!['0'] + (seq!['0'] + dec_rep(n))));
        lemma_dec_val_leading_zero(dec_rep(n));
        lemma_dec_val_leading_zero(seq!['0'] + dec_rep(n));
        lemma_dec_val_leading_zero(seq!['0'] + (seq!['0'] + dec_rep(n)));
    } else if n < 100 {
        assert(pad4(n) =~= seq!['0'] + (seq!['0'] + dec_rep(n)));
        lemma_dec_val_leading_zero(dec_rep(n));
        lemma_dec_val_leading_zero(seq!['0'] + dec_rep(n));
    } else if n < 1000 {
        assert(pad4(n) =~= seq!['0'] + dec_rep(n));
        lemma_dec_val_leading_zero(dec_rep(n));
    }
    assert forall|i: int| 0 <= i < pad4(n).len() implies is_digit(#[trigger] pad4(n)[i]) by {
        let pad: int = 4 - dec_rep(n).len();
        if i >= pad {
            assert(pad4(n)[i] == dec_rep(n)[i - pad]);
        }
    }
}

/// A timestamp title of a year between 0 and 9999 is 22 characters, and
/// each field stands at a fixed place in it.
pub proof fn lemma_ts_fields(f: TimeFields)
    requires
        f.wf(),
        0 <= f.year <= 9999,
    ensures
        ts_chars(f).len() == 22,
        ts_chars(f).subrange(0, 3) == month_name(f.month as int),
        ts_chars(f)[3] == ' ',
        ts_chars(f).subrange(4, 6) == pad2(f.day as int),
        ts_chars(f)[6] == ',',
        ts_chars(f)[7] == ' ',
        ts_chars(f).subrange(8, 12) == pad4(f.year as nat),
        ts_chars(f)[12] == ' ',
        ts_chars(f)[13] == '-',
        ts_chars(f)[14] == ' ',
        ts_chars(f).subrange(15, 17) == pad2(h12_of(f.hour as int)),
        ts_chars(f)[17] == ':',
        ts_chars(f).subrange(18, 20) == pad2(f.minute as int),
        ts_chars(f).subrange(20, 22) == ampm_chars(is_pm(f.hour as int)),
{
    lemma_dec_val_pad4(f.year as nat);
    assert(month_name(f.month as int).len() == 3);
    assert(year_chars(f.year as int) == pad4(f.year as nat));
    assert(ts_chars(f).len() == 22);
    assert(ts_chars(f).subrange(0, 3) =~= month_name(f.month as int));
    assert(ts_chars(f).subrange(4, 6) =~= pad2(f.day as int));
    assert(ts_chars(f).subrange(8, 12) =~= pad4(f.year as nat));
    assert(ts_chars(f).subrange(15, 17) =~= pad2(h12_of(f.hour as int)));
    assert(ts_chars(f).subrange(18, 20) =~= pad2(f.minute as int));
    assert(ts_chars(f).subrange(20, 22) =~= ampm_chars(is_pm(f.hour as int)));
}

/// The 12-hour clock with an am/pm flag determines the 24-hour hour.
pub proof fn lemma_h12_reconstruct(h: int)
    requires
        0 <= h < 24,
    ensures
        1 <= h12_of(h) <= 12,
        ({
            let v = h12_of(h);
            (if is_pm(h) {
                if v == 12 {
                    12int
                } else {
                    v + 12
                }
            } else {
                if v == 12 {
                    0int
                } else {
                    v
                }
            }) == h
        }),
{
}

/// Two timestamp titles of years between 0 and 9999 agree only when the
/// times themselves do: within that range the rendering loses nothing.
pub proof fn lemma_ts_chars_injective(f1: TimeFields, f2: TimeFields)
    requires
        f1.wf(),
        f2.wf(),
        0 <= f1.year <= 9999,
        0 <= f2.year <= 9999,
        ts_chars(f1) == ts_chars(f2),
    ensures
        f1 == f2,
{
    lemma_ts_fields(f1);
    lemma_ts_fields(f2);
    assert(f1.month == f2.month) by {
        assert(month_name(f1.month as int) == month_name(f2.month as int));
    }
    assert(f1.day == f2.day) by {
        lemma_dec_val_pad2(f1.day as int);
        lemma_dec_val_pad2(f2.day as int);
    }
    assert(f1.year == f2.year) by {
        lemma_dec_val_pad4(f1.year as nat);
        lemma_dec_val_pad4(f2.year as nat);
    }
    assert(f1.minute == f2.minute) by {
        lemma_dec_val_pad2(f1.minute as int);
        lemma_dec_val_pad2(f2.minute as int);
    }
    assert(f1.hour == f2.hour) by {
        assert(is_pm(f1.hour as int) == is_pm(f2.hour as int)) by {
            assert(ampm_chars(is_pm(f1.hour as int))[0] == ampm_chars(
                is_pm(f2.hour as int),
            )[0]);
        }
        assert(h12_of(f1.hour as int) == h12_of(f2.hour as int)) by {
            lemma_dec_val_pad2(h12_of(f1.hour as int));
            lemma_dec_val_pad2(h12_of(f2.hour as int));
        }
        lemma_h12_reconstruct(f1.hour as int);
        lemma_h12_reconstruct(f2.hour as int);
    }
}

/// The value of a four-character digit string, spelled out digit by digit.
pub proof fn lemma_dec_val4(u: Seq<char>)
    requires
        u.len() == 4,
    ensures
        dec_val(u) == digit_val(u[0]) * 1000 + digit_val(u[1]) * 100 + digit_val(u[2]) * 10
            + digit_val(u[3]),
{
    let u3 = u.drop_last();
    let u2 = u3.drop_last();
    let u1 = u2.drop_last();
    let u0 = u1.drop_last();
    assert(u0 =~= Seq::<char>::empty());
    assert(dec_val(u) == dec_val(u3) * 10 + digit_val(u[3]));
    assert(dec_val(u3) == dec_val(u2) * 10 + digit_val(u[2]));
    assert(dec_val(u2) == dec_val(u1) * 10 + digit_val(u[1]));
    assert(dec_val(u1) == dec_val(u0) * 10 + digit_val(u[0]));
    assert(dec_val(u0) == 0);
}

/// In a timestamp title the digits at each field's place read back as that
/// field of the time it shows.
pub proof fn lemma_extract(s: Seq<char>, f: TimeFields)
    requires
        f.wf(),
        0 <= f.year <= 9999,
        s == ts_chars(f),
    ensures
        s.len() == 22,
        month_name(f.month as int) == seq![s[0], s[1], s[2]],
        f.day == digit_val(s[4]) * 10 + digit_val(s[5]),
        is_digit(s[4]) && is_digit(s[5]),
        f.year == digit_val(s[8]) * 1000 + digit_val(s[9]) * 100 + digit_val(s[10]) * 10
            + digit_val(s[11]),
        is_digit(s[8]) && is_digit(s[9]) && is_digit(s[10]) && is_digit(s[11]),
        h12_of(f.hour as int) == digit_val(s[15]) * 10 + digit_val(s[16]),
        is_digit(s[15]) && is_digit(s[16]),
        f.minute == digit_val(s[18]) * 10 + digit_val(s[19]),
        is_digit(s[18]) && is_digit(s[19]),
        is_pm(f.hour as int) <==> s[20] == 'p',
        1 <= h12_of(f.hour as int) <= 12,
{
    lemma_ts_fields(f);
    lemma_h12_reconstruct(f.hour as int);
    assert(month_name(f.month as int) =~= seq![s[0], s[1], s[2]]);
    assert(s[4] == pad2(f.day as int)[0] && s[5] == pad2(f.day as int)[1]);
    lemma_dec_val_pad2(f.day as int);
    let u = pad4(f.year as nat);
    lemma_dec_val_pad4(f.year as nat);
    lemma_dec_val4(u);
    assert(s[8] == u[0] && s[9] == u[1] && s[10] == u[2] && s[11] == u[3]);
    assert(s[15] == pad2(h12_of(f.hour as int))[0] && s[16] == pad2(h12_of(f.hour as int))[1]);
    lemma_dec_val_pad2(h12_of(f.hour as int));
    assert(s[18] == pad2(f.minute as int)[0] && s[19] == pad2(f.minute as int)[1]);
    lemma_dec_val_pad2(f.minute as int);
    assert(s[20] == ampm_chars(is_pm(f.hour as int))[0]);
}

/// The numeric value of one digit character, zero for any other character.
fn digit_val_of(c: char) -> (d: u64)
    ensures
        d < 10,
        is_digit(c) ==> d as int == digit_val(c),
{
    let v = c as u32;
    if 48 <= v && v <= 57 {
        (v - 48) as u64
    } else {
        0
    }
}

/// The month whose three-letter name the characters spell, zero for any
/// other characters.
fn month_from_chars(c0: char, c1: char, c2: char) -> (r: u8)
    ensures
        r <= 12,
        forall|m: int| 1 <= m <= 12 && month_name(m) == seq![c0, c1, c2] ==> r as int == m,
{
    let r: u8 = if c0 == 'J' && c1 == 'a' && c2 == 'n' {
        1
    } else if c0 == 'F' && c1 == 'e' && c2 == 'b' {
        2
    } else if c0 == 'M' && c1 == 'a' && c2 == 'r' {
        3
    } else if c0 == 'A' && c1 == 'p' && c2 == 'r' {
        4
    } else if c0 == 'M' && c1 == 'a' && c2 == 'y' {
        5
    } else if c0 == 'J' && c1 == 'u' && c2 == 'n' {
        6
    } else if c0 == 'J' && c1 == 'u' && c2 == 'l' {
        7
    } else if c0 == 'A' && c1 == 'u' && c2 == 'g' {
        8
    } else if c0 == 'S' && c1 == 'e' && c2 == 'p' {
        9
    } else if c0 == 'O' && c1 == 'c' && c2 == 't' {
        10
    } else if c0 == 'N' && c1 == 'o' && c2 == 'v' {
        11
    } else if c0 == 'D' && c1 == 'e' && c2 == 'c' {
        12
    } else {
        0
    };
    r
}

/// Reads a timestamp title back into the time it shows. Exactly the titles
/// `ts_chars` gives to well-formed times with years 0 to 9999 are accepted;
/// anything else yields `None`.
pub fn parse_timestamp(s: &str) -> (r: Option<TimeFields>)
    ensures
        r matches Some(f) ==> f.wf() && 0 <= f.year <= 9999 && s@ == ts_chars(f),
        forall|f: TimeFields| f.wf() && 0 <= f.year <= 9999 && s@ == ts_chars(f) ==> r == Some(f),
{
    let len = s.unicode_len();
    if len != 22 {
        proof {
            assert forall|f: TimeFields|
                f.wf() && 0 <= f.year <= 9999 && s@ == ts_chars(f) implies false by {
                lemma_ts_fields(f);
            }
        }
        return None;
    }
    let c0 = s.get_char(0);
    let c1 = s.get_char(1);
    let c2 = s.get_char(2);
    let c4 = s.get_char(4);
    let c5 = s.get_char(5);
    let c8 = s.get_char(8);
    let c9 = s.get_char(9);
    let c10 = s.get_char(10);
    let c11 = s.get_char(11);
    let c15 = s.get_char(15);
    let c16 = s.get_char(16);
    let c18 = s.get_char(18);
    let c19 = s.get_char(19);
    let c20 = s.get_char(20);
    let month = month_from_chars(c0, c1, c2);
    let day = digit_val_of(c4) * 10 + digit_val_of(c5);
    let year = digit_val_of(c8) * 1000 + digit_val_of(c9) * 100 + digit_val_of(c10) * 10
        + digit_val_of(c11);
    let h12v = digit_val_of(c15) * 10 + digit_val_of(c16);
    let minute = digit_val_of(c18) * 10 + digit_val_of(c19);
    let pm = c20 == 'p';
    let hour: u64 = if pm {
        if h12v == 12 {
            12
        } else {
            h12v + 12
        }
    } else {
        if h12v == 12 {
            0
        } else {
            h12v
        }
    };
    if !(1 <= month && month <= 12 && 1 <= day && day <= 31 && hour <= 23 && minute <= 59) {
        proof {
            assert forall|f: TimeFields|
                f.wf() && 0 <= f.year <= 9999 && s@ == ts_chars(f) implies false by {
                lemma_extract(s@, f);
                lemma_h12_reconstruct(f.hour as int);
                assert(month as int == f.month as int);
                assert(day as int == f.day as int);
                assert(h12v as int == h12_of(f.hour as int));
                assert(hour as int == f.hour as int);
                assert(minute as int == f.minute as int);
            }
        }
        return None;
    }
    let cand = TimeFields {
        year: year as i32,
        month: month as u8,
        day: day as u8,
        hour: hour as u8,
        minute: minute as u8,
    };
    let back = format_timestamp(&cand);
    let own: String = s.to_owned();
    if back.eq(&own) {
        proof {
            assert(s@ == ts_chars(cand));
            assert forall|f: TimeFields|
                f.wf() && 0 <= f.year <= 9999 && s@ == ts_chars(f) implies Some(f) == Some::<
                TimeFields,
            >(cand) by {
                lemma_ts_chars_injective(f, cand);
            }
        }
        Some(cand)
    } else {
        proof {
            assert forall|f: TimeFields|
                f.wf() && 0 <= f.year <= 9999 && s@ == ts_chars(f) implies false by {
                lemma_extract(s@, f);
                lemma_h12_reconstruct(f.hour as int);
                assert(month as int == f.month as int);
                assert(day as int == f.day as int);
                assert(year as int == f.year as int);
                assert(h12v as int == h12_of(f.hour as int));
                assert(hour as int == f.hour as int);
                assert(minute as int == f.minute as int);
                assert(cand == f);
                assert(back@ == s@);
            }
        }
        None
    }
}

/// Relies on chrono's `Local::now` and its `Datelike` / `Timelike`
/// accessors: `month` is 1 to 12, `day` 1 to 31, `hour` 0 to 23 and
/// `minute` 0 to 59. The result depends on the clock, so nothing more than
/// those ranges is promised.
#[verifier::external_body]
fn local_now_fields() -> (r: TimeFields)
    ensures
        r.wf(),
{
    let now = chrono::Local::now();
    TimeFields {
        year: now.year(),
        month: now.month() as u8,
        day: now.day() as u8,
        hour: now.hour() as u8,
        minute: now.minute() as u8,
    }
}

/// The title of a note: the supplied one verbatim, or, with none supplied,
/// the local time of the call rendered as a timestamp title.
pub fn derive_title(title: Option<String>) -> (r: String)
    ensures
        title matches Some(t) ==> r@ == t@,
        title is None ==> exists|f: TimeFields| f.wf() && r@ == ts_chars(f),
{
    match title {
        Option::Some(t) => t,
        Option::None => {
            let now = local_now_fields();
            format_timestamp(&now)
        },
    }
}

} // verus!
