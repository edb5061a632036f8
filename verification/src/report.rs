//! Numbers as readable text.

use vstd::prelude::*;
use vstd::string::*;

verus! {

/// The character of a decimal digit.
pub open spec fn decimal_digit(digit: int) -> char {
    if digit == 0 {
        '0'
    } else if digit == 1 {
        '1'
    } else if digit == 2 {
        '2'
    } else if digit == 3 {
        '3'
    } else if digit == 4 {
        '4'
    } else if digit == 5 {
        '5'
    } else if digit == 6 {
        '6'
    } else if digit == 7 {
        '7'
    } else if digit == 8 {
        '8'
    } else {
        '9'
    }
}

/// `n` in decimal, without leading zeros.
pub open spec fn decimal_text(n: nat) -> Seq<char>
    decreases n,
{
    if n < 10 {
        seq![decimal_digit(n as int)]
    } else {
        decimal_text(n / 10).push(decimal_digit((n % 10) as int))
    }
}

/// The three decimal digits of `n % 1000`, zeros included.
pub open spec fn group_text(n: nat) -> Seq<char> {
    seq![
        decimal_digit((n / 100 % 10) as int),
        decimal_digit((n / 10 % 10) as int),
        decimal_digit((n % 10) as int),
    ]
}

/// `n` in decimal with a comma before every group of three digits, counted
/// from the right.
pub open spec fn grouped_text(n: nat) -> Seq<char>
    decreases n,
{
    if n < 1000 {
        decimal_text(n)
    } else {
        grouped_text(n / 1000) + seq![','] + group_text(n)
    }
}

/// The text of one decimal digit.
fn digit_str(digit: u64) -> (text: &'static str)
    requires
        digit < 10,
    ensures
        text@ == seq![decimal_digit(digit as int)],
{
    proof {
        reveal_strlit("0");
        reveal_strlit("1");
        reveal_strlit("2");
        reveal_strlit("3");
        reveal_strlit("4");
        reveal_strlit("5");
        reveal_strlit("6");
        reveal_strlit("7");
        reveal_strlit("8");
        reveal_strlit("9");
    }
    let text = if digit == 0 {
        "0"
    } else if digit == 1 {
        "1"
    } else if digit == 2 {
        "2"
    } else if digit == 3 {
        "3"
    } else if digit == 4 {
        "4"
    } else if digit == 5 {
        "5"
    } else if digit == 6 {
        "6"
    } else if digit == 7 {
        "7"
    } else if digit == 8 {
        "8"
    } else {
        "9"
    };
    assert(text@ =~= seq![decimal_digit(digit as int)]);
    text
}

/// `n` in decimal.
fn decimal_string(n: u64) -> (text: String)
    ensures
        text@ == decimal_text(n as nat),
    decreases n,
{
    if n < 10 {
        String::from_str(digit_str(n))
    } else {
        let mut text = decimal_string(n / 10);
        text.append(digit_str(n % 10));
        assert(text@ =~= decimal_text(n as nat));
        text
    }
}

/// Writes `n` with commas between groups of three digits: `1234567` becomes
/// `1,234,567`.
pub fn format_number(n: u64) -> (text: String)
    ensures
        text@ == grouped_text(n as nat),
    decreases n,
{
    if n < 1000 {
        decimal_string(n)
    } else {
        let mut text = format_number(n / 1000);
        proof {
            reveal_strlit(",");
        }
        let ghost head = text@;
        text.append(",");
        text.append(digit_str(n / 100 % 10));
        text.append(digit_str(n / 10 % 10));
        text.append(digit_str(n % 10));
        assert(text@ =~= head + seq![','] + group_text(n as nat));
        text
    }
}

/// Sixteen to the power of `exponent`.
pub open spec fn pow16(exponent: nat) -> nat
    decreases exponent,
{
    if exponent == 0 {
        1
    } else {
        16 * pow16((exponent - 1) as nat)
    }
}

/// Hash computations to expect for a chained branch of `levels` levels: one
/// for the first level, and sixteen times as many for each level as for the
/// one before it.
pub open spec fn hash_computations(levels: nat) -> nat
    decreases levels,
{
    if levels == 0 {
        0
    } else {
        hash_computations((levels - 1) as nat) + pow16((levels - 1) as nat)
    }
}

/// Powers of sixteen up to the fifteenth fit in 61 bits.
proof fn lemma_pow16_bound(exponent: nat)
    requires
        exponent <= 15,
    ensures
        pow16(exponent) <= 0x1000_0000_0000_0000,
{
    assert(pow16(0) == 1);
    assert(pow16(1) == 0x10);
    assert(pow16(2) == 0x100);
    assert(pow16(3) == 0x1000);
    assert(pow16(4) == 0x1_0000);
    assert(pow16(5) == 0x10_0000);
    assert(pow16(6) == 0x100_0000);
    assert(pow16(7) == 0x1000_0000);
    assert(pow16(8) == 0x1_0000_0000);
    assert(pow16(9) == 0x10_0000_0000);
    assert(pow16(10) == 0x100_0000_0000);
    assert(pow16(11) == 0x1000_0000_0000);
    assert(pow16(12) == 0x1_0000_0000_0000);
    assert(pow16(13) == 0x10_0000_0000_0000);
    assert(pow16(14) == 0x100_0000_0000_0000);
    assert(pow16(15) == 0x1000_0000_0000_0000);
}

/// Estimates the hash computations behind a chained branch of `levels`
/// levels. Up to sixteen levels the estimate fits in 64 bits.
pub fn estimate_hash_computations(levels: usize) -> (total: u64)
    requires
        levels <= 16,
    ensures
        total == hash_computations(levels as nat),
{
    let mut total: u64 = 0;
    let mut power: u64 = 1;
    let mut i: usize = 0;
    while i < levels
        invariant
            i <= levels <= 16,
            total == hash_computations(i as nat),
            i < levels ==> power == pow16(i as nat),
            i < levels ==> total < power,
        decreases levels - i,
    {
        proof {
            lemma_pow16_bound(i as nat);
        }
        total = total + power;
        i += 1;
        if i < levels {
            proof {
                lemma_pow16_bound(i as nat);
            }
            power = power * 16;
        }
    }
    total
}

} // verus!
