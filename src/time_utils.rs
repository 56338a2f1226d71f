//! Human-readable text for the time until a card is due.

use vstd::prelude::*;

verus! {

pub open spec fn digit_char(d: int) -> char {
    (48 + d) as char
}

/// The decimal digits of `n`, without leading zeros.
pub open spec fn decimal(n: nat) -> Seq<char>
    decreases n,
{
    if n < 10 {
        seq![digit_char(n as int)]
    } else {
        decimal(n / 10) + seq![digit_char((n % 10) as int)]
    }
}

/// `diff / unit`, rounded to the nearest integer, halves away from zero, for
/// positive `diff` and an even `unit`.
pub open spec fn round_div(diff: int, unit: int) -> int {
    (diff + unit / 2) / unit
}

/// `in N <unit>`, with the unit made plural unless `n` is 1.
pub open spec fn amount_text(n: int, unit: Seq<char>) -> Seq<char> {
    "in "@ + decimal(n as nat) + " "@ + unit + if n == 1 {
        Seq::<char>::empty()
    } else {
        "s"@
    }
}

/// The text for a card due in `diff` seconds: `now` when it is due, else the
/// largest of days, hours and minutes whose rounded count is positive, else
/// the seconds.
pub open spec fn until_text(diff: int) -> Seq<char> {
    if diff <= 0 {
        "now"@
    } else if round_div(diff, 86400) > 0 {
        amount_text(round_div(diff, 86400), "day"@)
    } else if round_div(diff, 3600) > 0 {
        amount_text(round_div(diff, 3600), "hour"@)
    } else if round_div(diff, 60) > 0 {
        amount_text(round_div(diff, 60), "minute"@)
    } else {
        amount_text(diff, "second"@)
    }
}

fn digit_str(d: u64) -> (r: &'static str)
    requires
        d < 10,
    ensures
        r@ == seq![digit_char(d as int)],
{
    proof {
        reveal_strlit("0");
        reveal_strlit("1");
        reveal_strlit("2");
        reveal_strlit("3");
        reveal_strlit("4");
        reveal_strlit("5");
        reveal_strlit("6");
        reveal_strlit("7");
        reveal_strlit("8");
        reveal_strlit("9");
    }
    let r = match d {
        0 => "0",
        1 => "1",
        2 => "2",
        3 => "3",
        4 => "4",
        5 => "5",
        6 => "6",
        7 => "7",
        8 => "8",
        _ => "9",
    };
    assert(r@ =~= seq![digit_char(d as int)]);
    r
}

/// Appends the decimal digits of `n` to `s`.
fn push_decimal(s: &mut String, n: u64)
    ensures
        final(s)@ == old(s)@ + decimal(n as nat),
    decreases n,
{
    if n >= 10 {
        push_decimal(s, n / 10);
    }
    s.append(digit_str(n % 10));
    assert(s@ =~= old(s)@ + decimal(n as nat));
}

/// `n / unit`, rounded to the nearest integer, halves away from zero.
fn rounded(n: i64, unit: i64) -> (r: i64)
    requires
        n > 0,
        unit > 0,
        unit % 2 == 0,
    ensures
        r == round_div(n as int, unit as int),
{
    let q = n / unit;
    let rem = n % unit;
    let ghost (ni, ui, qi, ri) = (n as int, unit as int, q as int, rem as int);
    proof {
        vstd::arithmetic::div_mod::lemma_fundamental_div_mod(ni, ui);
    }
    assert(ni == qi * ui + ri) by (nonlinear_arith)
        requires
            ni == ui * (ni / ui) + ni % ui,
            qi == ni / ui,
            ri == ni % ui,
    ;
    assert(qi * 2 <= qi * ui) by (nonlinear_arith)
        requires
            qi >= 0,
            ui >= 2,
    ;
    proof {
        let h = ui / 2;
        if ri + h < ui {
            vstd::arithmetic::div_mod::lemma_fundamental_div_mod_converse(ni + h, ui, qi, ri + h);
        } else {
            assert(ni + h == (qi + 1) * ui + (ri + h - ui)) by (nonlinear_arith)
                requires
                    ni == qi * ui + ri,
            ;
            vstd::arithmetic::div_mod::lemma_fundamental_div_mod_converse(
                ni + h,
                ui,
                qi + 1,
                ri + h - ui,
            );
        }
    }
    if rem >= unit / 2 {
        q + 1
    } else {
        q
    }
}

fn amount(n: i64, unit: &str) -> (r: String)
    requires
        n >= 0,
    ensures
        r@ == amount_text(n as int, unit@),
{
    let mut s = String::from_str("in ");
    push_decimal(&mut s, n as u64);
    s.append(" ");
    s.append(unit);
    if n != 1 {
        s.append("s");
    }
    assert(s@ =~= amount_text(n as int, unit@));
    s
}

/// Text for a card due in `diff` seconds, such as `now`, `in 3 days` or
/// `in 1 minute`.
pub fn format_until_duration(diff: i64) -> (r: String)
    ensures
        r@ == until_text(diff as int),
{
    if diff <= 0 {
        return String::from_str("now");
    }
    let days = rounded(diff, 86400);
    let hours = rounded(diff, 3600);
    let minutes = rounded(diff, 60);
    if days > 0 {
        amount(days, "day")
    } else if hours > 0 {
        amount(hours, "hour")
    } else if minutes > 0 {
        amount(minutes, "minute")
    } else {
        amount(diff, "second")
    }
}

} // verus!
