//! Numbers and durations as text.

use vstd::prelude::*;

verus! {

/// The character that writes the digit `d`.
pub open spec fn digit_char(d: nat) -> char
    recommends
        d < 10,
{
    if d == 0 {
        '0'
    } else if d == 1 {
        '1'
    } else if d == 2 {
        '2'
    } else if d == 3 {
        '3'
    } else if d == 4 {
        '4'
    } else if d == 5 {
        '5'
    } else if d == 6 {
        '6'
    } else if d == 7 {
        '7'
    } else if d == 8 {
        '8'
    } else {
        '9'
    }
}

/// The decimal numeral of `n`, without leading zeros.
pub open spec fn decimal_digits(n: nat) -> Seq<char>
    decreases n,
{
    if n < 10 {
        seq![digit_char(n)]
    } else {
        decimal_digits(n / 10).push(digit_char(n % 10))
    }
}

/// The text shown for a duration of `secs` seconds: seconds alone below a
/// minute, minutes and seconds below an hour, else hours, minutes and
/// seconds.
pub open spec fn duration_text(secs: u64) -> Seq<char> {
    let hours = (secs / 3600) as nat;
    let minutes = ((secs % 3600) / 60) as nat;
    let seconds = (secs % 60) as nat;
    if secs < 60 {
        decimal_digits(secs as nat) + seq!['s']
    } else if hours > 0 {
        decimal_digits(hours) + seq!['h', ' '] + decimal_digits(minutes) + seq!['m', ' ']
            + decimal_digits(seconds) + seq!['s']
    } else {
        decimal_digits(minutes) + seq!['m', ' '] + decimal_digits(seconds) + seq!['s']
    }
}

fn digit_str(d: u64) -> (text: &'static str)
    requires
        d < 10,
    ensures
        text@ == seq![digit_char(d as nat)],
{
    proof {
        reveal_strlit("0");
        reveal_strlit("1");
        reveal_strlit("2");
        reveal_strlit("3");
        reveal_strlit("4");
        reveal_strlit("5");
        reveal_strlit("6");
        reveal_strlit("7");
        reveal_strlit("8");
        reveal_strlit("9");
    }
    let text = if d == 0 {
        "0"
    } else if d == 1 {
        "1"
    } else if d == 2 {
        "2"
    } else if d == 3 {
        "3"
    } else if d == 4 {
        "4"
    } else if d == 5 {
        "5"
    } else if d == 6 {
        "6"
    } else if d == 7 {
        "7"
    } else if d == 8 {
        "8"
    } else {
        "9"
    };
    assert(text@ =~= seq![digit_char(d as nat)]);
    text
}

/// Appends the decimal numeral of `n` to `out`.
pub fn push_decimal(out: &mut String, n: u64)
    ensures
        final(out)@ == old(out)@ + decimal_digits(n as nat),
    decreases n,
{
    if n >= 10 {
        push_decimal(out, n / 10);
    }
    out.append(digit_str(n % 10));
    assert(out@ =~= old(out)@ + decimal_digits(n as nat));
}

/// The decimal numeral of `n`.
pub fn decimal(n: u64) -> (text: String)
    ensures
        text@ == decimal_digits(n as nat),
{
    let mut text = String::new();
    push_decimal(&mut text, n);
    assert(text@ =~= decimal_digits(n as nat));
    text
}

/// The text shown for a duration of `total_secs` seconds.
pub fn format_duration(total_secs: u64) -> (text: String)
    ensures
        text@ == duration_text(total_secs),
{
    proof {
        reveal_strlit("s");
        reveal_strlit("h ");
        reveal_strlit("m ");
    }
    let mut text = String::new();
    if total_secs < 60 {
        push_decimal(&mut text, total_secs);
        text.append("s");
        assert(text@ =~= duration_text(total_secs));
        return text;
    }
    let hours: u64 = total_secs / 3600;
    let minutes: u64 = (total_secs % 3600) / 60;
    let seconds: u64 = total_secs % 60;
    if hours > 0 {
        push_decimal(&mut text, hours);
        text.append("h ");
    }
    push_decimal(&mut text, minutes);
    text.append("m ");
    push_decimal(&mut text, seconds);
    text.append("s");
    assert("s"@ =~= seq!['s']);
    assert("h "@ =~= seq!['h', ' ']);
    assert("m "@ =~= seq!['m', ' ']);
    assert(text@ =~= duration_text(total_secs));
    text
}

} // verus!
