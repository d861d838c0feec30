pub mod bignat;
pub mod roots;
pub mod text;

use vstd::prelude::*;
use vstd::string::*;

verus! {

/// The character of a decimal digit.
pub open spec fn digit_char(digit: nat) -> char {
    if digit == 0 {
        '0'
    } else if digit == 1 {
        '1'
    } else if digit == 2 {
        '2'
    } else if digit == 3 {
        '3'
    } else if digit == 4 {
        '4'
    } else if digit == 5 {
        '5'
    } else if digit == 6 {
        '6'
    } else if digit == 7 {
        '7'
    } else if digit == 8 {
        '8'
    } else {
        '9'
    }
}

/// A number in decimal notation, without leading zeros.
pub open spec fn decimal_text(n: nat) -> Seq<char>
    decreases n,
{
    if n < 10 {
        seq![digit_char(n)]
    } else {
        decimal_text(n / 10).push(digit_char(n % 10))
    }
}

/// A number in decimal notation, with zeros in front up to `width` digits.
pub open spec fn padded_decimal_text(n: nat, width: nat) -> Seq<char>
    decreases width,
{
    if decimal_text(n).len() >= width {
        decimal_text(n)
    } else {
        seq!['0'] + padded_decimal_text(n, (width - 1) as nat)
    }
}

fn digit_str(digit: u64) -> (text: &'static str)
    requires
        digit < 10,
    ensures
        text@ == seq![digit_char(digit as nat)],
{
    proof {
        reveal_strlit("0");
        reveal_strlit("1");
        reveal_strlit("2");
        reveal_strlit("3");
        reveal_strlit("4");
        reveal_strlit("5");
        reveal_strlit("6");
        reveal_strlit("7");
        reveal_strlit("8");
        reveal_strlit("9");
    }
    let text = if digit == 0 {
        "0"
    } else if digit == 1 {
        "1"
    } else if digit == 2 {
        "2"
    } else if digit == 3 {
        "3"
    } else if digit == 4 {
        "4"
    } else if digit == 5 {
        "5"
    } else if digit == 6 {
        "6"
    } else if digit == 7 {
        "7"
    } else if digit == 8 {
        "8"
    } else {
        "9"
    };
    assert(text@ =~= seq![digit_char(digit as nat)]);
    text
}

/// Writes `n` in decimal notation at the end of `out`.
pub fn push_decimal(out: &mut String, n: u64)
    ensures
        final(out)@ == old(out)@ + decimal_text(n as nat),
    decreases n,
{
    if n >= 10 {
        push_decimal(out, n / 10);
    }
    out.append(digit_str(n % 10));
    assert(final(out)@ =~= old(out)@ + decimal_text(n as nat));
}

/// Number of decimal digits of `n`.
fn decimal_len(n: u64) -> (len: u64)
    ensures
        len == decimal_text(n as nat).len(),
        1 <= len <= 20,
    decreases n,
{
    if n >= 10 {
        let shorter: u64 = decimal_len(n / 10);
        proof {
            lemma_decimal_len_bound(n as nat);
        }
        shorter + 1
    } else {
        1
    }
}

proof fn lemma_decimal_len_bound(n: nat)
    requires
        n <= u64::MAX,
    ensures
        decimal_text(n).len() <= 20,
{
    reveal_with_fuel(decimal_text, 21);
}

/// Writes `n` in decimal notation at the end of `out`, with zeros in front
/// up to `width` digits.
pub fn push_padded_decimal(out: &mut String, n: u64, width: u64)
    ensures
        final(out)@ == old(out)@ + padded_decimal_text(n as nat, width as nat),
{
    let len: u64 = decimal_len(n);
    let mut left: u64 = width;
    let ghost start = out@;
    let ghost mut zeros: Seq<char> = Seq::empty();
    while left > len
        invariant
            len == decimal_text(n as nat).len(),
            out@ == start + zeros,
            zeros + padded_decimal_text(n as nat, left as nat) == padded_decimal_text(
                n as nat,
                width as nat,
            ),
        decreases left,
    {
        out.append("0");
        proof {
            reveal_strlit("0");
            assert("0"@ =~= seq!['0']);
            assert((zeros + seq!['0']) + padded_decimal_text(n as nat, (left - 1) as nat) =~= zeros
                + padded_decimal_text(n as nat, left as nat));
            assert(start + zeros + "0"@ =~= start + (zeros + seq!['0']));
            zeros = zeros + seq!['0'];
        }
        left -= 1;
    }
    push_decimal(out, n);
    assert(final(out)@ =~= start + padded_decimal_text(n as nat, width as nat));
}

/// A span of minutes for display: `"Ym"` below one hour, `"Xh Ym"` from one
/// hour on.
pub open spec fn minutes_text(minutes: nat) -> Seq<char> {
    if minutes < 60 {
        decimal_text(minutes) + seq!['m']
    } else {
        decimal_text(minutes / 60) + seq!['h', ' '] + decimal_text(minutes % 60) + seq!['m']
    }
}

/// Renders a span of minutes for display.
pub fn format_minutes(minutes: u32) -> (text: String)
    ensures
        text@ == minutes_text(minutes as nat),
{
    proof {
        reveal_strlit("m");
        reveal_strlit("h ");
    }
    let mut text = String::new();
    if minutes < 60 {
        push_decimal(&mut text, minutes as u64);
        text.append("m");
        assert("m"@ =~= seq!['m']);
        assert(text@ =~= minutes_text(minutes as nat));
    } else {
        push_decimal(&mut text, (minutes / 60) as u64);
        text.append("h ");
        push_decimal(&mut text, (minutes % 60) as u64);
        text.append("m");
        assert("m"@ =~= seq!['m']);
        assert("h "@ =~= seq!['h', ' ']);
        assert(text@ =~= minutes_text(minutes as nat));
    }
    text
}

/// The year of a date as text: four digits for the years 0 to 9999, and a
/// sign followed by at least four digits for every other year.
pub open spec fn year_text(year: int) -> Seq<char> {
    if 0 <= year <= 9999 {
        padded_decimal_text(year as nat, 4)
    } else if year < 0 {
        seq!['-'] + padded_decimal_text((-year) as nat, 4)
    } else {
        seq!['+'] + padded_decimal_text(year as nat, 4)
    }
}

/// A calendar day as `YYYY-MM-DD`.
pub open spec fn date_text(year: int, month: nat, day: nat) -> Seq<char> {
    year_text(year) + seq!['-'] + padded_decimal_text(month, 2) + seq!['-'] + padded_decimal_text(
        day,
        2,
    )
}

/// Renders a calendar day as `YYYY-MM-DD`.
pub fn format_date(year: i32, month: u32, day: u32) -> (text: String)
    ensures
        text@ == date_text(year as int, month as nat, day as nat),
{
    proof {
        reveal_strlit("-");
        reveal_strlit("+");
    }
    let mut text = String::new();
    let wide: i64 = year as i64;
    if wide < 0 {
        text.append("-");
        push_padded_decimal(&mut text, (0 - wide) as u64, 4);
    } else if wide > 9999 {
        text.append("+");
        push_padded_decimal(&mut text, wide as u64, 4);
    } else {
        push_padded_decimal(&mut text, wide as u64, 4);
    }
    assert("-"@ =~= seq!['-']);
    assert("+"@ =~= seq!['+']);
    assert(text@ =~= year_text(year as int));
    text.append("-");
    push_padded_decimal(&mut text, month as u64, 2);
    text.append("-");
    push_padded_decimal(&mut text, day as u64, 2);
    assert(text@ =~= date_text(year as int, month as nat, day as nat));
    text
}

} // verus!
