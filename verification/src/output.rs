//! Rendering of the diagnostic lines: decimal digits of the printed
//! numbers, and the exact text of every line the driver writes.

use vstd::prelude::*;
use vstd::string::StringExecFns;
use crate::decimal::all_digits;
use crate::decimal::decimal_value;
use crate::decimal::digit_of;
use crate::decimal::digits_value;
use crate::decimal::is_digit_char;
use crate::decimal::is_i32_decimal;
use crate::visit::OutLine;

verus! {

/// The digit character for a value below ten.
pub open spec fn digit_char(d: int) -> char {
    if d == 0 {
        '0'
    } else if d == 1 {
        '1'
    } else if d == 2 {
        '2'
    } else if d == 3 {
        '3'
    } else if d == 4 {
        '4'
    } else if d == 5 {
        '5'
    } else if d == 6 {
        '6'
    } else if d == 7 {
        '7'
    } else if d == 8 {
        '8'
    } else {
        '9'
    }
}

/// Decimal digits of a non-negative number, most significant first.
pub open spec fn dec_digits(n: int) -> Seq<char>
    decreases n,
{
    if n < 10 {
        seq![digit_char(n)]
    } else {
        dec_digits(n / 10) + seq![digit_char(n % 10)]
    }
}

/// Decimal rendering of a possibly negative number.
pub open spec fn render_int(n: int) -> Seq<char> {
    if n < 0 {
        seq!['-'] + dec_digits(-n)
    } else {
        dec_digits(n)
    }
}

pub open spec fn tick_line_spec(t: i32) -> Seq<char> {
    "TICK: "@ + render_int(t as int)
}

pub open spec fn hero_id_line_spec(h: u32) -> Seq<char> {
    "ID: "@ + dec_digits(h as int)
}

/// The text of one per-entity diagnostic line.
pub open spec fn line_spec(l: OutLine) -> Seq<char> {
    match l {
        OutLine::Tick(t) => tick_line_spec(t),
        OutLine::HeroId(h) => hero_id_line_spec(h),
    }
}

pub open spec fn total_ticks_line_spec(n: i32) -> Seq<char> {
    "Total ticks: "@ + render_int(n as int)
}

pub open spec fn running_to_tick_line_spec(t: i32) -> Seq<char> {
    "Running to tick: "@ + render_int(t as int)
}

pub open spec fn running_to_end_line_spec() -> Seq<char> {
    "Running to end"@
}

fn digit_str(d: u32) -> (r: &'static str)
    requires
        d < 10,
    ensures
        r@ == seq![digit_char(d as int)],
{
    if d == 0 {
        proof {
            reveal_strlit("0");
            assert("0"@ =~= seq![digit_char(0)]);
        }
        "0"
    } else if d == 1 {
        proof {
            reveal_strlit("1");
            assert("1"@ =~= seq![digit_char(1)]);
        }
        "1"
    } else if d == 2 {
        proof {
            reveal_strlit("2");
            assert("2"@ =~= seq![digit_char(2)]);
        }
        "2"
    } else if d == 3 {
        proof {
            reveal_strlit("3");
            assert("3"@ =~= seq![digit_char(3)]);
        }
        "3"
    } else if d == 4 {
        proof {
            reveal_strlit("4");
            assert("4"@ =~= seq![digit_char(4)]);
        }
        "4"
    } else if d == 5 {
        proof {
            reveal_strlit("5");
            assert("5"@ =~= seq![digit_char(5)]);
        }
        "5"
    } else if d == 6 {
        proof {
            reveal_strlit("6");
            assert("6"@ =~= seq![digit_char(6)]);
        }
        "6"
    } else if d == 7 {
        proof {
            reveal_strlit("7");
            assert("7"@ =~= seq![digit_char(7)]);
        }
        "7"
    } else if d == 8 {
        proof {
            reveal_strlit("8");
            assert("8"@ =~= seq![digit_char(8)]);
        }
        "8"
    } else {
        proof {
            reveal_strlit("9");
            assert("9"@ =~= seq![digit_char(9)]);
        }
        "9"
    }
}

/// Appends the decimal digits of `n` to `out`.
fn push_digits(n: u32, out: &mut String)
    ensures
        final(out)@ == old(out)@ + dec_digits(n as int),
    decreases n,
{
    if n < 10 {
        out.append(digit_str(n));
    } else {
        push_digits(n / 10, out);
        out.append(digit_str(n % 10));
        assert(old(out)@ + dec_digits((n / 10) as int) + seq![digit_char((n % 10) as int)]
            =~= old(out)@ + dec_digits(n as int));
    }
}

/// Appends the decimal rendering of `n`, sign included, to `out`.
fn push_int(n: i32, out: &mut String)
    ensures
        final(out)@ == old(out)@ + render_int(n as int),
{
    if n < 0 {
        out.append("-");
        proof {
            reveal_strlit("-");
        }
        let m: u32 = (-(n as i64)) as u32;
        push_digits(m, out);
        assert(old(out)@ + "-"@ + dec_digits(m as int) =~= old(out)@ + render_int(n as int));
    } else {
        push_digits(n as u32, out);
    }
}

/// The tick line printed for every processed entity update.
pub fn tick_line(t: i32) -> (r: String)
    ensures
        r@ == tick_line_spec(t),
{
    let mut out: String = "TICK: ".to_owned();
    push_int(t, &mut out);
    out
}

/// The hero-identifier line printed for a matched player pawn.
pub fn hero_id_line(h: u32) -> (r: String)
    ensures
        r@ == hero_id_line_spec(h),
{
    let mut out: String = "ID: ".to_owned();
    push_digits(h, &mut out);
    out
}

/// Renders one per-entity diagnostic line.
pub fn render_line(l: &OutLine) -> (r: String)
    ensures
        r@ == line_spec(*l),
{
    match l {
        OutLine::Tick(t) => tick_line(*t),
        OutLine::HeroId(h) => hero_id_line(*h),
    }
}

/// The line reporting the replay's total tick count.
pub fn total_ticks_line(n: i32) -> (r: String)
    ensures
        r@ == total_ticks_line_spec(n),
{
    let mut out: String = "Total ticks: ".to_owned();
    push_int(n, &mut out);
    out
}

/// The header line of a run bounded by a tick.
pub fn running_to_tick_line(t: i32) -> (r: String)
    ensures
        r@ == running_to_tick_line_spec(t),
{
    let mut out: String = "Running to tick: ".to_owned();
    push_int(t, &mut out);
    out
}

/// The header line of a run to the end of the stream.
pub fn running_to_end_line() -> (r: String)
    ensures
        r@ == running_to_end_line_spec(),
{
    "Running to end".to_owned()
}

/// The digits of `n` are digits and evaluate back to `n`.
pub proof fn lemma_dec_digits_value(n: int)
    requires
        n >= 0,
    ensures
        all_digits(dec_digits(n)),
        digits_value(dec_digits(n)) == n,
        dec_digits(n).len() >= 1,
    decreases n,
{
    if n < 10 {
        let s = dec_digits(n);
        assert(s =~= seq![digit_char(n)]);
        assert(s.drop_last() =~= Seq::<char>::empty());
        assert(digits_value(s.drop_last()) == 0);
        assert(s.last() == digit_char(n));
        assert(digits_value(s) == 10 * digits_value(s.drop_last()) + digit_of(s.last()));
    } else {
        lemma_dec_digits_value(n / 10);
        let s = dec_digits(n);
        let t = dec_digits(n / 10);
        assert(s == t + seq![digit_char(n % 10)]);
        assert(s.drop_last() =~= t);
        assert(s.last() == digit_char(n % 10));
        assert(digits_value(s) == 10 * digits_value(t) + digit_of(s.last()));
        assert(10 * (n / 10) + n % 10 == n) by (nonlinear_arith);
    }
}

/// Rendering an `i32` and reading the digits back is the identity: the
/// rendering is a decimal the parser accepts, and it denotes `n`.
pub proof fn lemma_render_parse_round_trip(n: i32)
    ensures
        is_i32_decimal(render_int(n as int)),
        decimal_value(render_int(n as int)) == n as int,
{
    if n < 0 {
        let m = -(n as int);
        lemma_dec_digits_value(m);
        let s = seq!['-'] + dec_digits(m);
        assert(s[0] == '-');
        assert(crate::decimal::digits_part(s) =~= dec_digits(m));
    } else {
        lemma_dec_digits_value(n as int);
        let s = dec_digits(n as int);
        assert(is_digit_char(s[0]));
        assert(s[0] != '-' && s[0] != '+');
        assert(crate::decimal::digits_part(s) == s);
    }
}

} // verus!
