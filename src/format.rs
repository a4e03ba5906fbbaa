//! Text shown to the user: timespans, padded numbers, masked account ids.
use vstd::prelude::*;
use vstd::string::*;
use crate::json::{decimal, push_decimal};
use crate::text::str_equal;

verus! {

/// `c` in upper case, as `char::to_uppercase` gives it (one or more characters).
pub uninterp spec fn upper_of(c: char) -> Seq<char>;

/// Relies on `char::to_uppercase`: the result depends on the character alone.
#[verifier::external_body]
fn char_to_uppercase(c: char) -> (r: String)
    ensures
        r@ == upper_of(c),
{
    c.to_uppercase().collect::<String>()
}

/// `s` with its first character in upper case.
pub open spec fn uppercase_first_of(s: Seq<char>) -> Seq<char> {
    if s.len() == 0 {
        s
    } else {
        upper_of(s[0]) + s.subrange(1, s.len() as int)
    }
}

/// `s` with its first character in upper case.
pub fn uppercase_first(s: &str) -> (r: String)
    ensures
        r@ == uppercase_first_of(s@),
{
    let n = s.unicode_len();
    if n == 0 {
        return String::new();
    }
    let mut r = char_to_uppercase(s.get_char(0));
    r.append(s.substring_char(1, n));
    r
}

/// (whether the quotient is positive, quotient, remainder).
pub fn modulus(numerator: u64, denominator: u64) -> (r: (bool, u64, u64))
    requires
        denominator > 0,
    ensures
        r == (numerator / denominator > 0, numerator / denominator, numerator % denominator),
{
    (numerator / denominator > 0, numerator / denominator, numerator % denominator)
}

/// `digits` with zeros in front up to `width` characters.
pub open spec fn padded(digits: Seq<char>, width: nat) -> Seq<char>
    decreases width - digits.len(),
{
    if digits.len() >= width {
        digits
    } else {
        padded(seq!['0'] + digits, width)
    }
}

/// The decimal digits of `num`, with zeros in front up to `desired_length` characters.
pub fn pad_left(num: u64, desired_length: usize) -> (r: String)
    ensures
        r@ == padded(decimal(num as nat), desired_length as nat),
{
    let mut p = crate::json::decimal_string(num);
    while p.as_str().unicode_len() < desired_length
        invariant
            padded(p@, desired_length as nat) == padded(decimal(num as nat), desired_length as nat),
        decreases desired_length - p@.len(),
    {
        proof {
            reveal_strlit("0");
        }
        let mut q = String::from_str("0");
        q.append(p.as_str());
        assert(q@ =~= seq!['0'] + p@);
        p = q;
    }
    p
}

/// `[Yy ][Mm ][Dd ]HH:MM:SS`: years of 365 days and months of 30, each larger unit
/// shown from the largest nonzero one down.
pub open spec fn timespan_text(t: u64) -> Seq<char> {
    let years = t / 31536000;
    let mdhms = t % 31536000;
    let months = mdhms / 2592000;
    let dhms = mdhms % 2592000;
    let days = dhms / 86400;
    let hms = dhms % 86400;
    let hours = hms / 3600;
    let ms = hms % 3600;
    let mins = ms / 60;
    let secs = ms % 60;
    let hy = years > 0;
    let hm = months > 0;
    let hd = days > 0;
    (if hy { decimal(years as nat) + "y "@ } else { Seq::empty() })
        + (if hm || hy { decimal(months as nat) + "m "@ } else { Seq::empty() })
        + (if hd || hm || hy { decimal(days as nat) + "d"@ } else { Seq::empty() })
        + (if hy || hm || hd { " "@ } else { Seq::empty() })
        + padded(decimal(hours as nat), 2) + ":"@ + padded(decimal(mins as nat), 2) + ":"@
        + padded(decimal(secs as nat), 2)
}

/// A human-readable timespan; empty where human-readable deadlines are off.
pub fn format_timespan(timespan: u64, show_human_readable_deadlines: bool) -> (r: String)
    ensures
        r@ == if !show_human_readable_deadlines {
            Seq::<char>::empty()
        } else if timespan == 0 {
            "00:00:00"@
        } else {
            timespan_text(timespan)
        },
{
    if !show_human_readable_deadlines {
        return String::new();
    }
    if timespan == 0 {
        return String::from_str("00:00:00");
    }
    let (has_years, years, mdhms) = modulus(timespan, 31536000);
    let (has_months, months, dhms) = modulus(mdhms, 86400 * 30);
    let (has_days, days, hms) = modulus(dhms, 86400);
    let (_, hours, ms) = modulus(hms, 3600);
    let (_, mins, secs) = modulus(ms, 60);
    let mut s = String::new();
    if has_years {
        push_decimal(&mut s, years);
        s.append("y ");
    }
    if has_months || has_years {
        push_decimal(&mut s, months);
        s.append("m ");
    }
    if has_days || has_months || has_years {
        push_decimal(&mut s, days);
        s.append("d");
    }
    if has_years || has_months || has_days {
        s.append(" ");
    }
    let h = pad_left(hours, 2);
    let m = pad_left(mins, 2);
    let sec = pad_left(secs, 2);
    s.append(h.as_str());
    s.append(":");
    s.append(m.as_str());
    s.append(":");
    s.append(sec.as_str());
    assert(s@ =~= timespan_text(timespan));
    s
}

/// The account id, with all but its first and last three digits replaced by `XXX`
/// where masking is on and it has at least four digits.
pub open spec fn censored(digits: Seq<char>, mask: bool) -> Seq<char> {
    if mask && digits.len() >= 4 {
        digits.subrange(0, 1) + "XXX"@ + digits.subrange(digits.len() - 3, digits.len() as int)
    } else {
        digits
    }
}

/// The account id as shown on the console.
pub fn censor_account_id(account_id: u64, mask_account_ids_in_console: bool) -> (r: String)
    ensures
        r@ == censored(decimal(account_id as nat), mask_account_ids_in_console),
{
    let s = crate::json::decimal_string(account_id);
    let n = s.as_str().unicode_len();
    if mask_account_ids_in_console && n >= 4 {
        let mut r = String::from_str(s.as_str().substring_char(0, 1));
        r.append("XXX");
        r.append(s.as_str().substring_char(n - 3, n));
        r
    } else {
        s
    }
}

/// Log levels of the configuration.
#[derive(PartialEq, Eq, Structural, Clone, Copy, Debug)]
pub enum LogLevel {
    Off,
    Trace,
    Debug,
    Info,
    Warn,
    Error,
}

pub open spec fn log_level_of(s: Seq<char>, default_level: Option<LogLevel>) -> LogLevel {
    if s == "off"@ {
        LogLevel::Off
    } else if s == "trace"@ {
        LogLevel::Trace
    } else if s == "debug"@ {
        LogLevel::Debug
    } else if s == "info"@ {
        LogLevel::Info
    } else if s == "warn"@ {
        LogLevel::Warn
    } else if s == "error"@ {
        LogLevel::Error
    } else {
        match default_level {
            Some(l) => l,
            None => LogLevel::Info,
        }
    }
}

/// The level a configured name stands for; the default (else `Info`) for others.
pub fn get_logging_level_from_string(level_string: &str, default_level: Option<LogLevel>) -> (r: LogLevel)
    ensures
        r == log_level_of(level_string@, default_level),
{
    if str_equal(level_string, "off") {
        LogLevel::Off
    } else if str_equal(level_string, "trace") {
        LogLevel::Trace
    } else if str_equal(level_string, "debug") {
        LogLevel::Debug
    } else if str_equal(level_string, "info") {
        LogLevel::Info
    } else if str_equal(level_string, "warn") {
        LogLevel::Warn
    } else if str_equal(level_string, "error") {
        LogLevel::Error
    } else {
        match default_level {
            Some(l) => l,
            None => LogLevel::Info,
        }
    }
}

} // verus!
