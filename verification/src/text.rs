//! Text building blocks: decimal and hexadecimal numerals appended to a `String`.

use vstd::prelude::*;
use vstd::string::*;

verus! {

/// The decimal digits in order.
pub open spec fn dec_digits() -> Seq<char> {
    seq!['0', '1', '2', '3', '4', '5', '6', '7', '8', '9']
}

/// The lower-case hexadecimal digits in order.
pub open spec fn hex_digits() -> Seq<char> {
    seq!['0', '1', '2', '3', '4', '5', '6', '7', '8', '9', 'a', 'b', 'c', 'd', 'e', 'f']
}

/// The decimal numeral of `n`, without sign and without leading zeros.
pub open spec fn dec(n: nat) -> Seq<char>
    decreases n,
{
    if n < 10 {
        seq![dec_digits()[n as int]]
    } else {
        dec(n / 10).push(dec_digits()[(n % 10) as int])
    }
}

/// The decimal numeral of `i`, with a leading minus sign when it is negative.
pub open spec fn signed_dec(i: int) -> Seq<char> {
    if i < 0 {
        seq!['-'] + dec((-i) as nat)
    } else {
        dec(i as nat)
    }
}

/// The last `width` lower-case hexadecimal digits of `n`, zero-padded on the left.
pub open spec fn hex(n: nat, width: nat) -> Seq<char>
    decreases width,
{
    if width == 0 {
        Seq::empty()
    } else {
        hex(n / 16, (width - 1) as nat).push(hex_digits()[(n % 16) as int])
    }
}

fn dec_digit_str(d: u64) -> (digit: &'static str)
    requires
        d < 10,
    ensures
        digit@ == seq![dec_digits()[d as int]],
{
    proof {
        reveal_strlit("0");
        reveal_strlit("1");
        reveal_strlit("2");
        reveal_strlit("3");
        reveal_strlit("4");
        reveal_strlit("5");
        reveal_strlit("6");
        reveal_strlit("7");
        reveal_strlit("8");
        reveal_strlit("9");
    }
    let digit = if d == 0 {
        "0"
    } else if d == 1 {
        "1"
    } else if d == 2 {
        "2"
    } else if d == 3 {
        "3"
    } else if d == 4 {
        "4"
    } else if d == 5 {
        "5"
    } else if d == 6 {
        "6"
    } else if d == 7 {
        "7"
    } else if d == 8 {
        "8"
    } else {
        "9"
    };
    assert(digit@ =~= seq![dec_digits()[d as int]]);
    digit
}

fn hex_digit_str(d: u64) -> (digit: &'static str)
    requires
        d < 16,
    ensures
        digit@ == seq![hex_digits()[d as int]],
{
    proof {
        reveal_strlit("a");
        reveal_strlit("b");
        reveal_strlit("c");
        reveal_strlit("d");
        reveal_strlit("e");
        reveal_strlit("f");
    }
    if d < 10 {
        dec_digit_str(d)
    } else {
        let digit = if d == 10 {
            "a"
        } else if d == 11 {
            "b"
        } else if d == 12 {
            "c"
        } else if d == 13 {
            "d"
        } else if d == 14 {
            "e"
        } else {
            "f"
        };
        assert(digit@ =~= seq![hex_digits()[d as int]]);
        digit
    }
}

/// Appends the decimal numeral of `n`.
pub fn push_dec(text: &mut String, n: u64)
    ensures
        final(text)@ == old(text)@ + dec(n as nat),
{
    push_wide_dec(text, n as u128);
}

/// Appends the decimal numeral of a number of up to 128 bits.
pub fn push_wide_dec(text: &mut String, n: u128)
    ensures
        final(text)@ == old(text)@ + dec(n as nat),
    decreases n,
{
    if n >= 10 {
        push_wide_dec(text, n / 10);
    }
    text.append(dec_digit_str((n % 10) as u64));
    assert(final(text)@ =~= old(text)@ + dec(n as nat));
}

/// Number of digits of the decimal numeral of `n`.
pub fn dec_len(n: u128) -> (digits: usize)
    ensures
        digits == dec(n as nat).len(),
        1 <= digits <= 39,
    decreases n,
{
    if n >= 10 {
        let shorter = dec_len(n / 10);
        proof {
            lemma_dec_len_bound(n as nat);
        }
        shorter + 1
    } else {
        1
    }
}

/// A number below `10^k` has at most `k` digits; one of 128 bits has at most 39.
pub proof fn lemma_dec_len_bound(n: nat)
    requires
        n <= u128::MAX,
    ensures
        1 <= dec(n).len() <= 39,
{
    assert(pow10(39) == 1_000_000_000_000_000_000_000_000_000_000_000_000_000) by {
        reveal_with_fuel(pow10, 40);
    }
    lemma_dec_len_pow(n, 39);
}

/// Ten to the power of `k`.
pub open spec fn pow10(k: nat) -> nat
    decreases k,
{
    if k == 0 {
        1
    } else {
        10 * pow10((k - 1) as nat)
    }
}

/// A number below `10^k`, for a positive `k`, has between one and `k` digits.
pub proof fn lemma_dec_len_pow(n: nat, k: nat)
    requires
        k >= 1,
        n < pow10(k),
    ensures
        1 <= dec(n).len() <= k,
    decreases k,
{
    if n >= 10 {
        assert(pow10(1) == 10) by {
            assert(pow10(0) == 1);
        }
        assert(k >= 2);
        lemma_dec_len_pow(n / 10, (k - 1) as nat);
    }
}

/// `n` times the character `c`.
pub open spec fn repeat(c: char, n: nat) -> Seq<char> {
    Seq::new(n, |i: int| c)
}

/// The text, filled up with `fill` on the right to at least `width` characters.
pub open spec fn pad_right(text: Seq<char>, width: nat, fill: char) -> Seq<char> {
    if text.len() >= width {
        text
    } else {
        text + repeat(fill, (width - text.len()) as nat)
    }
}

/// The text, filled up with `fill` on the left to at least `width` characters.
pub open spec fn pad_left(text: Seq<char>, width: nat, fill: char) -> Seq<char> {
    if text.len() >= width {
        text
    } else {
        repeat(fill, (width - text.len()) as nat) + text
    }
}

/// Appends `n` spaces, or `n` dashes where `dash` is set.
pub fn push_fill(text: &mut String, n: u128, dash: bool)
    ensures
        final(text)@ == old(text)@ + repeat(
            if dash {
                '-'
            } else {
                ' '
            },
            n as nat,
        ),
{
    proof {
        reveal_strlit("-");
        reveal_strlit(" ");
    }
    let ghost fill = if dash {
        '-'
    } else {
        ' '
    };
    let mut i: u128 = 0;
    assert(text@ =~= old(text)@ + repeat(fill, 0));
    while i < n
        invariant
            i <= n,
            fill == if dash {
                '-'
            } else {
                ' '
            },
            "-"@ =~= seq!['-'],
            " "@ =~= seq![' '],
            text@ == old(text)@ + repeat(fill, i as nat),
        decreases n - i,
    {
        if dash {
            text.append("-");
        } else {
            text.append(" ");
        }
        i = i + 1;
        assert(text@ =~= old(text)@ + repeat(fill, i as nat));
    }
}

/// Appends the decimal numeral of `i`, with a minus sign when it is negative.
pub fn push_signed_dec(text: &mut String, i: i64)
    ensures
        final(text)@ == old(text)@ + signed_dec(i as int),
{
    if i < 0 {
        proof {
            reveal_strlit("-");
        }
        text.append("-");
        let magnitude: u64 = if i == i64::MIN {
            0x8000_0000_0000_0000
        } else {
            (-i) as u64
        };
        push_dec(text, magnitude);
        assert(final(text)@ =~= old(text)@ + signed_dec(i as int));
    } else {
        push_dec(text, i as u64);
    }
}

/// Appends the last `width` hexadecimal digits of `n`, zero-padded on the left.
pub fn push_hex(text: &mut String, n: u64, width: u32)
    ensures
        final(text)@ == old(text)@ + hex(n as nat, width as nat),
    decreases width,
{
    if width > 0 {
        push_hex(text, n / 16, width - 1);
        text.append(hex_digit_str(n % 16));
    }
    assert(final(text)@ =~= old(text)@ + hex(n as nat, width as nat));
}

} // verus!
