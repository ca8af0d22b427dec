//! Numbers written out as text.

use vstd::prelude::*;
use vstd::string::StringExecFns;

verus! {

/// The character that stands for a digit of base sixteen or less.
pub open spec fn digit(d: nat) -> char
    recommends
        d < 16,
{
    seq!['0', '1', '2', '3', '4', '5', '6', '7', '8', '9', 'a', 'b', 'c', 'd', 'e', 'f'][d as int]
}

/// A number in base ten, without leading zeros.
pub open spec fn decimal(n: nat) -> Seq<char>
    decreases n,
{
    if n < 10 {
        seq![digit(n)]
    } else {
        decimal(n / 10).push(digit(n % 10))
    }
}

/// The `width` low digits of a number in base sixteen, leading zeros kept.
pub open spec fn hex(n: nat, width: nat) -> Seq<char>
    decreases width,
{
    if width == 0 {
        Seq::empty()
    } else {
        hex(n / 16, (width - 1) as nat).push(digit(n % 16))
    }
}

/// Sixteen to the power of `width`: how many numbers `width` digits can tell apart.
pub open spec fn hex_range(width: nat) -> nat
    decreases width,
{
    if width == 0 {
        1
    } else {
        16 * hex_range((width - 1) as nat)
    }
}

/// Puts one digit at the end of a text.
fn push_digit(text: &mut String, d: u8)
    requires
        d < 16,
    ensures
        final(text)@ == old(text)@.push(digit(d as nat)),
{
    let glyph: &str = match d {
        0 => "0",
        1 => "1",
        2 => "2",
        3 => "3",
        4 => "4",
        5 => "5",
        6 => "6",
        7 => "7",
        8 => "8",
        9 => "9",
        10 => "a",
        11 => "b",
        12 => "c",
        13 => "d",
        14 => "e",
        _ => "f",
    };
    proof {
        reveal_strlit("0");
        reveal_strlit("1");
        reveal_strlit("2");
        reveal_strlit("3");
        reveal_strlit("4");
        reveal_strlit("5");
        reveal_strlit("6");
        reveal_strlit("7");
        reveal_strlit("8");
        reveal_strlit("9");
        reveal_strlit("a");
        reveal_strlit("b");
        reveal_strlit("c");
        reveal_strlit("d");
        reveal_strlit("e");
        reveal_strlit("f");
        assert(glyph@ =~= seq![digit(d as nat)]);
    }
    text.append(glyph);
    assert(text@ =~= old(text)@.push(digit(d as nat)));
}

/// Writes a number in base ten.
pub fn to_decimal(n: u64) -> (text: String)
    ensures
        text@ == decimal(n as nat),
    decreases n,
{
    let mut text: String = if n < 10 {
        String::new()
    } else {
        to_decimal(n / 10)
    };
    push_digit(&mut text, (n % 10) as u8);
    assert(text@ =~= decimal(n as nat));
    text
}

/// Writes the `width` low digits of a number in base sixteen.
pub fn to_hex(n: u64, width: u8) -> (text: String)
    ensures
        text@ == hex(n as nat, width as nat),
    decreases width,
{
    if width == 0 {
        String::new()
    } else {
        let mut text: String = to_hex(n / 16, width - 1);
        push_digit(&mut text, (n % 16) as u8);
        text
    }
}

/// A number written with a fixed width takes exactly that many characters.
pub proof fn law_hex_width(n: nat, width: nat)
    ensures
        hex(n, width).len() == width,
    decreases width,
{
    if width > 0 {
        law_hex_width(n / 16, (width - 1) as nat);
    }
}

/// Two numbers that fit the width are written alike only if they are the same number.
pub proof fn law_hex_injective(a: nat, b: nat, width: nat)
    requires
        a < hex_range(width),
        b < hex_range(width),
        hex(a, width) == hex(b, width),
    ensures
        a == b,
    decreases width,
{
    if width > 0 {
        let narrower = (width - 1) as nat;
        assert(hex(a, width).drop_last() =~= hex(a / 16, narrower));
        assert(hex(b, width).drop_last() =~= hex(b / 16, narrower));
        assert(hex(a, width).last() == digit(a % 16));
        assert(hex(b, width).last() == digit(b % 16));
        assert(a % 16 == b % 16);
        law_hex_injective(a / 16, b / 16, narrower);
    }
}

/// The number that a digit stands for: its place after zero, or after `a` beyond nine.
pub open spec fn digit_value(c: char) -> int {
    if '0' as int <= c as int <= '9' as int {
        c as int - '0' as int
    } else {
        c as int - 'a' as int + 10
    }
}

/// The number that a text of digits stands for in a base: each digit counts that many times as
/// much as the one after it.
pub open spec fn reads(text: Seq<char>, base: int) -> int
    decreases text.len(),
{
    if text.len() == 0 {
        0
    } else {
        reads(text.drop_last(), base) * base + digit_value(text.last())
    }
}

/// A digit stands for its number, in lower case.
pub proof fn law_digit_stands_for_its_number(d: nat)
    requires
        d < 16,
    ensures
        digit_value(digit(d)) == d,
        d < 10 ==> '0' as int <= digit(d) as int <= '9' as int,
        d >= 10 ==> 'a' as int <= digit(d) as int <= 'f' as int,
{
}

/// A number written in base ten reads as that number, and has no leading zero.
pub proof fn law_decimal_reads_back(n: nat)
    ensures
        reads(decimal(n), 10) == n,
        decimal(n).len() > 0,
        n > 0 ==> decimal(n)[0] != '0',
        forall|i: int|
            0 <= i < decimal(n).len() ==> '0' as int <= (#[trigger] decimal(n)[i]) as int
                <= '9' as int,
    decreases n,
{
    law_digit_stands_for_its_number(n % 10);
    if n < 10 {
        assert(decimal(n).drop_last() =~= Seq::empty());
        assert(reads(decimal(n).drop_last(), 10) == 0);
    } else {
        law_decimal_reads_back(n / 10);
        assert(decimal(n).drop_last() =~= decimal(n / 10));
    }
}

/// A number written in base sixteen reads as that number where it fits the width.
pub proof fn law_hex_reads_back(n: nat, width: nat)
    requires
        n < hex_range(width),
    ensures
        reads(hex(n, width), 16) == n,
    decreases width,
{
    if width > 0 {
        law_digit_stands_for_its_number(n % 16);
        law_hex_reads_back(n / 16, (width - 1) as nat);
        assert(hex(n, width).drop_last() =~= hex(n / 16, (width - 1) as nat));
    }
}

/// Sixteen digits are enough for every number of 64 bits.
pub proof fn law_sixteen_digits_are_enough(n: u64)
    ensures
        n < hex_range(16),
{
    reveal_with_fuel(hex_range, 17);
}

} // verus!
