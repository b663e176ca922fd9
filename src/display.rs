//! Text shown for a running session.
use vstd::prelude::*;

verus! {

pub open spec fn digit(d: int) -> char {
    if d == 0 {
        '0'
    } else if d == 1 {
        '1'
    } else if d == 2 {
        '2'
    } else if d == 3 {
        '3'
    } else if d == 4 {
        '4'
    } else if d == 5 {
        '5'
    } else if d == 6 {
        '6'
    } else if d == 7 {
        '7'
    } else if d == 8 {
        '8'
    } else {
        '9'
    }
}

/// The decimal digits of `n`, without leading zeros.
pub open spec fn decimal(n: nat) -> Seq<char>
    decreases n,
{
    if n < 10 {
        seq![digit(n as int)]
    } else {
        decimal(n / 10) + seq![digit((n % 10) as int)]
    }
}

/// `n` in decimal, padded to at least two digits with a leading zero.
pub open spec fn two_digits(n: nat) -> Seq<char> {
    if n < 10 { seq!['0'] + decimal(n) } else { decimal(n) }
}

/// `HH:MM:SS h` from one hour up, `MM:SS min` below; negative counts read
/// as zero.
pub open spec fn elapsed_text(seconds: int) -> Seq<char> {
    let s: nat = if seconds > 0 { seconds as nat } else { 0 };
    let hours = s / 3600;
    let minutes = (s % 3600) / 60;
    let secs = s % 60;
    if hours > 0 {
        two_digits(hours) + ":"@ + two_digits(minutes) + ":"@ + two_digits(secs) + " h"@
    } else {
        two_digits(minutes) + ":"@ + two_digits(secs) + " min"@
    }
}

fn push_digit(out: &mut String, d: u64)
    requires
        d < 10,
    ensures
        final(out)@ == old(out)@ + seq![digit(d as int)],
{
    proof {
        reveal_strlit("0");
        reveal_strlit("1");
        reveal_strlit("2");
        reveal_strlit("3");
        reveal_strlit("4");
        reveal_strlit("5");
        reveal_strlit("6");
        reveal_strlit("7");
        reveal_strlit("8");
        reveal_strlit("9");
    }
    let text = if d == 0 {
        "0"
    } else if d == 1 {
        "1"
    } else if d == 2 {
        "2"
    } else if d == 3 {
        "3"
    } else if d == 4 {
        "4"
    } else if d == 5 {
        "5"
    } else if d == 6 {
        "6"
    } else if d == 7 {
        "7"
    } else if d == 8 {
        "8"
    } else {
        "9"
    };
    assert(text@ =~= seq![digit(d as int)]);
    out.append(text);
}

fn push_decimal(out: &mut String, n: u64)
    ensures
        final(out)@ == old(out)@ + decimal(n as nat),
    decreases n,
{
    if n >= 10 {
        push_decimal(out, n / 10);
    }
    push_digit(out, n % 10);
    assert(final(out)@ =~= old(out)@ + decimal(n as nat));
}

fn push_two_digits(out: &mut String, n: u64)
    ensures
        final(out)@ == old(out)@ + two_digits(n as nat),
{
    if n < 10 {
        push_digit(out, 0);
    }
    push_decimal(out, n);
    assert(final(out)@ =~= old(out)@ + two_digits(n as nat));
}

/// The elapsed time of a session as the tray and the tick event show it.
pub fn format_elapsed(seconds: i64) -> (r: String)
    ensures
        r@ == elapsed_text(seconds as int),
{
    let s: u64 = if seconds > 0 {
        seconds as u64
    } else {
        0
    };
    let hours = s / 3600;
    let minutes = (s % 3600) / 60;
    let secs = s % 60;
    let mut out = String::new();
    proof {
        reveal_strlit(":");
        reveal_strlit(" h");
        reveal_strlit(" min");
    }
    if hours > 0 {
        push_two_digits(&mut out, hours);
        out.append(":");
        push_two_digits(&mut out, minutes);
        out.append(":");
        push_two_digits(&mut out, secs);
        out.append(" h");
    } else {
        push_two_digits(&mut out, minutes);
        out.append(":");
        push_two_digits(&mut out, secs);
        out.append(" min");
    }
    assert(out@ =~= elapsed_text(seconds as int));
    out
}

} // verus!
