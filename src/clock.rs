//! Timestamps as the store writes them: UTC, `YYYY-MM-DD HH:MM:SS`.

use vstd::prelude::*;

verus! {

pub open spec fn is_leap(y: int) -> bool {
    y % 4 == 0 && (y % 100 != 0 || y % 400 == 0)
}

pub open spec fn year_days(y: int) -> int {
    if is_leap(y) {
        366
    } else {
        365
    }
}

pub open spec fn month_days(y: int, m: int) -> int {
    if m == 2 {
        if is_leap(y) {
            29
        } else {
            28
        }
    } else if m == 4 || m == 6 || m == 9 || m == 11 {
        30
    } else {
        31
    }
}

/// Days from 1970-01-01 to the first day of year `y`.
pub open spec fn days_before_year(y: int) -> int
    decreases y - 1970,
{
    if y <= 1970 {
        0
    } else {
        days_before_year(y - 1) + year_days(y - 1)
    }
}

/// Days from the first day of year `y` to the first day of month `m`.
pub open spec fn days_before_month(y: int, m: int) -> int
    decreases m,
{
    if m <= 1 {
        0
    } else {
        days_before_month(y, m - 1) + month_days(y, m - 1)
    }
}

pub open spec fn digit_char(d: int) -> char {
    if d == 0 {
        '0'
    } else if d == 1 {
        '1'
    } else if d == 2 {
        '2'
    } else if d == 3 {
        '3'
    } else if d == 4 {
        '4'
    } else if d == 5 {
        '5'
    } else if d == 6 {
        '6'
    } else if d == 7 {
        '7'
    } else if d == 8 {
        '8'
    } else {
        '9'
    }
}

/// The last `w` decimal digits of `n`, zero-padded.
pub open spec fn padded(n: nat, w: nat) -> Seq<char>
    decreases w,
{
    if w == 0 {
        Seq::empty()
    } else {
        padded(n / 10, (w - 1) as nat).push(digit_char((n % 10) as int))
    }
}

/// The date and time, `YYYY-MM-DD HH:MM:SS`.
pub open spec fn timestamp_text(y: nat, mo: nat, d: nat, h: nat, mi: nat, s: nat) -> Seq<char> {
    padded(y, 4) + seq!['-'] + padded(mo, 2) + seq!['-'] + padded(d, 2) + seq![' '] + padded(h, 2)
        + seq![':'] + padded(mi, 2) + seq![':'] + padded(s, 2)
}

/// `t` is the text of a valid UTC date and time from 1970 on.
pub open spec fn is_timestamp_text(t: Seq<char>) -> bool {
    exists|y: nat, mo: nat, d: nat, h: nat, mi: nat, s: nat|
        y >= 1970 && 1 <= mo <= 12 && 1 <= d <= month_days(y as int, mo as int) && h < 24 && mi
            < 60 && s < 60 && t == #[trigger] timestamp_text(y, mo, d, h, mi, s)
}

/// The calendar date (proleptic Gregorian) that lies `days` days after
/// 1970-01-01: year, month and day of month.
pub fn civil_date(days: u64) -> (r: (u64, u64, u64))
    requires
        days <= u64::MAX - 1970,
    ensures
        r.0 >= 1970,
        1 <= r.1 <= 12,
        1 <= r.2 <= month_days(r.0 as int, r.1 as int),
        days == days_before_year(r.0 as int) + days_before_month(r.0 as int, r.1 as int) + r.2
            - 1,
{
    let mut y: u64 = 1970;
    let mut rest: u64 = days;
    loop
        invariant
            y >= 1970,
            days <= u64::MAX - 1970,
            y - 1970 <= days - rest,
            rest <= days,
            days == days_before_year(y as int) + rest,
        ensures
            days == days_before_year(y as int) + rest,
            rest < year_days(y as int),
            y >= 1970,
        decreases rest,
    {
        let len: u64 = if y % 4 == 0 && (y % 100 != 0 || y % 400 == 0) {
            366
        } else {
            365
        };
        if rest < len {
            break;
        }
        rest = rest - len;
        y = y + 1;
    }
    assert(rest < year_days(y as int));
    proof {
        reveal_with_fuel(days_before_month, 13);
        assert(days_before_month(y as int, 13) == year_days(y as int));
    }
    let mut m: u64 = 1;
    loop
        invariant
            1 <= m <= 12,
            days == days_before_year(y as int) + days_before_month(y as int, m as int) + rest,
            days_before_month(y as int, m as int) + rest < year_days(y as int),
            days_before_month(y as int, 13) == year_days(y as int),
        ensures
            1 <= m <= 12,
            days == days_before_year(y as int) + days_before_month(y as int, m as int) + rest,
            rest < month_days(y as int, m as int),
        decreases 12 - m,
    {
        let len: u64 = if m == 2 {
            if y % 4 == 0 && (y % 100 != 0 || y % 400 == 0) {
                29
            } else {
                28
            }
        } else if m == 4 || m == 6 || m == 9 || m == 11 {
            30
        } else {
            31
        };
        if rest < len {
            break;
        }
        proof {
            if m == 12 {
                assert(days_before_month(y as int, 13) == days_before_month(y as int, 12)
                    + month_days(y as int, 12));
            }
        }
        rest = rest - len;
        m = m + 1;
    }
    (y, m, rest + 1)
}

fn push_digit(s: &mut String, d: u64)
    requires
        d < 10,
    ensures
        final(s)@ == old(s)@.push(digit_char(d as int)),
{
    let t = if d == 0 {
        "0"
    } else if d == 1 {
        "1"
    } else if d == 2 {
        "2"
    } else if d == 3 {
        "3"
    } else if d == 4 {
        "4"
    } else if d == 5 {
        "5"
    } else if d == 6 {
        "6"
    } else if d == 7 {
        "7"
    } else if d == 8 {
        "8"
    } else {
        "9"
    };
    proof {
        reveal_strlit("0");
        reveal_strlit("1");
        reveal_strlit("2");
        reveal_strlit("3");
        reveal_strlit("4");
        reveal_strlit("5");
        reveal_strlit("6");
        reveal_strlit("7");
        reveal_strlit("8");
        reveal_strlit("9");
    }
    s.append(t);
    assert(final(s)@ =~= old(s)@.push(digit_char(d as int)));
}

fn push_padded(s: &mut String, n: u64, w: u64)
    ensures
        final(s)@ == old(s)@ + padded(n as nat, w as nat),
    decreases w,
{
    if w > 0 {
        push_padded(s, n / 10, w - 1);
        push_digit(s, n % 10);
        assert(final(s)@ =~= old(s)@ + padded(n as nat, w as nat));
    } else {
        assert(final(s)@ =~= old(s)@ + padded(n as nat, w as nat));
    }
}

fn push_separator(s: &mut String, sep: &str)
    ensures
        final(s)@ == old(s)@ + sep@,
{
    s.append(sep);
}

/// Formats seconds since 1970-01-01 00:00:00 UTC as `YYYY-MM-DD HH:MM:SS`
/// (the year in four digits).
pub fn format_timestamp(secs: u64) -> (r: String)
    ensures
        exists|y: nat, mo: nat, d: nat|
            y >= 1970 && 1 <= mo <= 12 && 1 <= d <= month_days(y as int, mo as int) && secs
                / 86400 == days_before_year(y as int) + days_before_month(y as int, mo as int) + d
                - 1 && r@ == #[trigger] timestamp_text(
                y,
                mo,
                d,
                (secs % 86400 / 3600) as nat,
                (secs % 3600 / 60) as nat,
                (secs % 60) as nat,
            ),
        is_timestamp_text(r@),
{
    let (y, mo, d) = civil_date(secs / 86400);
    let tod = secs % 86400;
    proof {
        reveal_strlit("-");
        reveal_strlit(" ");
        reveal_strlit(":");
        assert("-"@ =~= seq!['-']);
        assert(" "@ =~= seq![' ']);
        assert(":"@ =~= seq![':']);
    }
    let mut s = String::new();
    push_padded(&mut s, y, 4);
    push_separator(&mut s, "-");
    push_padded(&mut s, mo, 2);
    push_separator(&mut s, "-");
    push_padded(&mut s, d, 2);
    push_separator(&mut s, " ");
    push_padded(&mut s, tod / 3600, 2);
    push_separator(&mut s, ":");
    push_padded(&mut s, secs % 3600 / 60, 2);
    push_separator(&mut s, ":");
    push_padded(&mut s, secs % 60, 2);
    assert(tod / 3600 == secs % 86400 / 3600);
    assert(s@ =~= timestamp_text(
        y as nat,
        mo as nat,
        d as nat,
        (secs % 86400 / 3600) as nat,
        (secs % 3600 / 60) as nat,
        (secs % 60) as nat,
    ));
    assert(secs % 86400 / 3600 < 24);
    assert(secs % 3600 / 60 < 60);
    assert(is_timestamp_text(s@)) by {
        assert(s@ == timestamp_text(
            y as nat,
            mo as nat,
            d as nat,
            (secs % 86400 / 3600) as nat,
            (secs % 3600 / 60) as nat,
            (secs % 60) as nat,
        ));
    }
    s
}

/// Relies on std::time::SystemTime::now: the wall-clock time as whole
/// seconds since the Unix epoch (0 for a clock set before 1970).
#[verifier::external_body]
fn unix_time_now() -> (r: u64) {
    match std::time::SystemTime::now().duration_since(std::time::UNIX_EPOCH) {
        Ok(d) => d.as_secs(),
        Err(_) => 0,
    }
}

/// The current UTC time, `YYYY-MM-DD HH:MM:SS`.
pub fn timestamp_now() -> (r: String)
    ensures
        is_timestamp_text(r@),
{
    format_timestamp(unix_time_now())
}

} // verus!
