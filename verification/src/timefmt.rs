//! Bucketed relative-time phrases for listings: a parsed duration is turned
//! into strings like "a few seconds ago" or "in 3 days", with the counts
//! computed by exact integer arithmetic.

use vstd::prelude::*;

verus! {

/// The whole seconds of the duration that humantime parses out of a string,
/// if the string parses; a function of the input string alone.
pub uninterp spec fn parsed_duration_secs(s: Seq<char>) -> Option<u64>;

#[verifier::external_type_specification]
#[verifier::external_body]
pub struct ExDurationError(humantime::DurationError);

/// Relies on humantime::parse_duration: whether a duration string parses,
/// and to how many seconds, is a deterministic function of the string.
#[verifier::external_body]
fn parse_duration_secs(s: &String) -> (r: Result<u64, humantime::DurationError>)
    ensures
        match r {
            Ok(v) => parsed_duration_secs(s@) == Some(v),
            Err(_) => parsed_duration_secs(s@) is None,
        },
{
    humantime::parse_duration(s.as_str()).map(|d| d.as_secs())
}

pub open spec fn digit_char(d: int) -> char {
    if d == 0 {
        '0'
    } else if d == 1 {
        '1'
    } else if d == 2 {
        '2'
    } else if d == 3 {
        '3'
    } else if d == 4 {
        '4'
    } else if d == 5 {
        '5'
    } else if d == 6 {
        '6'
    } else if d == 7 {
        '7'
    } else if d == 8 {
        '8'
    } else {
        '9'
    }
}

/// The decimal digits of a non-negative number, most significant first.
pub open spec fn dec_digits(n: int) -> Seq<char>
    decreases n,
{
    if n < 10 {
        seq![digit_char(n)]
    } else {
        dec_digits(n / 10).push(digit_char(n % 10))
    }
}

/// Division rounding up.
pub open spec fn ceil_div(x: int, d: int) -> int {
    (x + d - 1) / d
}

/// Division rounding to the nearest integer, ties to the even neighbour.
pub open spec fn round_half_even(x: int, d: int) -> int {
    let q = x / d;
    let r = x % d;
    if 2 * r < d {
        q
    } else if 2 * r > d {
        q + 1
    } else if q % 2 == 0 {
        q
    } else {
        q + 1
    }
}

/// The bucketed phrase for a duration that lies in the past.
pub open spec fn past_phrase(secs: u64) -> Seq<char> {
    let x = secs as int;
    if x <= 44 {
        "a few seconds ago"@
    } else if x <= 89 {
        "a minute ago"@
    } else if x <= 2640 {
        dec_digits(ceil_div(x, 60)) + " minutes ago"@
    } else if x <= 5340 {
        "an hour ago"@
    } else if x <= 75600 {
        dec_digits(ceil_div(x, 3600)) + " hours ago"@
    } else if x <= 126000 {
        "a day ago"@
    } else if x <= 2160000 {
        dec_digits(ceil_div(x, 86400)) + " days ago"@
    } else if x <= 3888000 {
        "a month ago"@
    } else if x <= 25920000 {
        dec_digits(round_half_even(x, 2592000)) + " months ago"@
    } else if x <= 44064000 {
        "a year ago"@
    } else {
        dec_digits(round_half_even(x, 31104000)) + " years ago"@
    }
}

/// The bucketed phrase for a duration that lies in the future.
pub open spec fn future_phrase(secs: u64) -> Seq<char> {
    let x = secs as int;
    if x <= 44 {
        "in a few seconds"@
    } else if x <= 89 {
        "in a minute"@
    } else if x <= 2640 {
        "in "@ + dec_digits(ceil_div(x, 60)) + " minutes"@
    } else if x <= 5340 {
        "in an hour"@
    } else if x <= 75600 {
        "in "@ + dec_digits(ceil_div(x, 3600)) + " hours"@
    } else if x <= 126000 {
        "in a day"@
    } else if x <= 2160000 {
        "in "@ + dec_digits(ceil_div(x, 86400)) + " days"@
    } else if x <= 3888000 {
        "in a month"@
    } else if x <= 25920000 {
        "in "@ + dec_digits(round_half_even(x, 2592000)) + " months"@
    } else if x <= 44064000 {
        "in a year"@
    } else {
        "in "@ + dec_digits(round_half_even(x, 31104000)) + " years"@
    }
}

pub open spec fn relative_phrase(before: bool, secs: u64) -> Seq<char> {
    if before {
        past_phrase(secs)
    } else {
        future_phrase(secs)
    }
}

fn digit_str(d: u64) -> (r: String)
    requires
        d < 10,
    ensures
        r@ == seq![digit_char(d as int)],
{
    proof {
        reveal_strlit("0");
        reveal_strlit("1");
        reveal_strlit("2");
        reveal_strlit("3");
        reveal_strlit("4");
        reveal_strlit("5");
        reveal_strlit("6");
        reveal_strlit("7");
        reveal_strlit("8");
        reveal_strlit("9");
    }
    let s: &str = match d {
        0 => "0",
        1 => "1",
        2 => "2",
        3 => "3",
        4 => "4",
        5 => "5",
        6 => "6",
        7 => "7",
        8 => "8",
        _ => "9",
    };
    let r = s.to_owned();
    proof {
        assert(r@ =~= seq![digit_char(d as int)]);
    }
    r
}

/// Renders a number in decimal.
pub fn u64_to_string(n: u64) -> (r: String)
    ensures
        r@ == dec_digits(n as int),
    decreases n,
{
    if n < 10 {
        digit_str(n)
    } else {
        let mut s = u64_to_string(n / 10);
        let d = digit_str(n % 10);
        s.append(d.as_str());
        proof {
            assert(s@ =~= dec_digits((n / 10) as int).push(digit_char((n % 10) as int)));
        }
        s
    }
}

fn ceil_div_u64(x: u64, d: u64) -> (r: u64)
    requires
        0 < d <= 0x10000000,
        x <= 0x10000000,
    ensures
        r as int == ceil_div(x as int, d as int),
{
    (x + d - 1) / d
}

fn round_half_even_u64(x: u64, d: u64) -> (r: u64)
    requires
        2 <= d <= 0x10000000,
    ensures
        r as int == round_half_even(x as int, d as int),
{
    let q = x / d;
    proof {
        assert(x as int / (d as int) <= x as int / 2) by (nonlinear_arith)
            requires
                2 <= d as int,
                0 <= x as int,
        ;
    }
    let rem = x % d;
    if 2 * rem < d {
        q
    } else if 2 * rem > d {
        q + 1
    } else if q % 2 == 0 {
        q
    } else {
        q + 1
    }
}

fn counted_phrase(count: u64, before: bool, past_unit: &str, future_unit: &str) -> (r: String)
    ensures
        before ==> r@ == dec_digits(count as int) + past_unit@,
        !before ==> r@ == "in "@ + dec_digits(count as int) + future_unit@,
{
    let num = u64_to_string(count);
    if before {
        let mut s = num;
        s.append(past_unit);
        s
    } else {
        let mut s = "in ".to_owned();
        s.append(num.as_str());
        s.append(future_unit);
        s
    }
}

/// Formats a duration string as a bucketed relative-time phrase, in the
/// past ("3 days ago") or in the future ("in 3 days"). Fails exactly when
/// the duration string does not parse.
pub fn format_duration(before_current_ts: bool, duration_str: &String) -> (r: Result<
    String,
    humantime::DurationError,
>)
    ensures
        parsed_duration_secs(duration_str@) is None ==> r is Err,
        parsed_duration_secs(duration_str@) matches Some(x) ==> (r matches Ok(s) && s@
            == relative_phrase(before_current_ts, x)),
{
    let x = match parse_duration_secs(duration_str) {
        Ok(v) => v,
        Err(e) => {
            return Err(e);
        },
    };
    let before = before_current_ts;
    let s: String = if x <= 44 {
        if before {
            "a few seconds ago".to_owned()
        } else {
            "in a few seconds".to_owned()
        }
    } else if x <= 89 {
        if before {
            "a minute ago".to_owned()
        } else {
            "in a minute".to_owned()
        }
    } else if x <= 2640 {
        counted_phrase(ceil_div_u64(x, 60), before, " minutes ago", " minutes")
    } else if x <= 5340 {
        if before {
            "an hour ago".to_owned()
        } else {
            "in an hour".to_owned()
        }
    } else if x <= 75600 {
        counted_phrase(ceil_div_u64(x, 3600), before, " hours ago", " hours")
    } else if x <= 126000 {
        if before {
            "a day ago".to_owned()
        } else {
            "in a day".to_owned()
        }
    } else if x <= 2160000 {
        counted_phrase(ceil_div_u64(x, 86400), before, " days ago", " days")
    } else if x <= 3888000 {
        if before {
            "a month ago".to_owned()
        } else {
            "in a month".to_owned()
        }
    } else if x <= 25920000 {
        counted_phrase(round_half_even_u64(x, 2592000), before, " months ago", " months")
    } else if x <= 44064000 {
        if before {
            "a year ago".to_owned()
        } else {
            "in a year".to_owned()
        }
    } else {
        counted_phrase(round_half_even_u64(x, 31104000), before, " years ago", " years")
    };
    Ok(s)
}

} // verus!
