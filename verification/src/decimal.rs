//! Coordinates as decimal text.
//!
//! A coordinate counts thousandths of a pixel. Its text is the number of pixels in
//! decimal notation: an optional minus sign, the whole pixels, and, where the
//! coordinate is not a whole number of pixels, a point and up to three digits
//! without trailing zeros.

use vstd::prelude::*;
use vstd::string::*;

verus! {

/// The character of one decimal digit.
pub open spec fn digit_char(d: nat) -> char
    recommends
        d < 10,
{
    seq!['0', '1', '2', '3', '4', '5', '6', '7', '8', '9'][d as int]
}

/// The decimal digits of `n`, most significant first, without leading zeros.
pub open spec fn natural_text(n: nat) -> Seq<char>
    decreases n,
{
    if n < 10 {
        seq![digit_char(n)]
    } else {
        natural_text(n / 10).push(digit_char(n % 10))
    }
}

/// The fractional part of a coordinate, given as `f` thousandths with `f < 1000`:
/// nothing for zero, else a point and the digits up to the last that is not zero.
pub open spec fn fraction_text(f: nat) -> Seq<char>
    recommends
        f < 1000,
{
    if f == 0 {
        Seq::empty()
    } else if f % 100 == 0 {
        seq!['.', digit_char(f / 100)]
    } else if f % 10 == 0 {
        seq!['.', digit_char(f / 100), digit_char(f / 10 % 10)]
    } else {
        seq!['.', digit_char(f / 100), digit_char(f / 10 % 10), digit_char(f % 10)]
    }
}

/// The text of `m` thousandths, for `m` at or above zero.
pub open spec fn magnitude_text(m: nat) -> Seq<char> {
    natural_text(m / 1000) + fraction_text(m % 1000)
}

/// The text of the coordinate `v`, which counts thousandths of a pixel.
pub open spec fn decimal_text(v: int) -> Seq<char> {
    if v < 0 {
        seq!['-'] + magnitude_text((-v) as nat)
    } else {
        magnitude_text(v as nat)
    }
}

/// One decimal digit as a string.
fn digit_str(d: u64) -> (s: &'static str)
    requires
        d < 10,
    ensures
        s@ == seq![digit_char(d as nat)],
{
    proof {
        reveal_strlit("0");
        reveal_strlit("1");
        reveal_strlit("2");
        reveal_strlit("3");
        reveal_strlit("4");
        reveal_strlit("5");
        reveal_strlit("6");
        reveal_strlit("7");
        reveal_strlit("8");
        reveal_strlit("9");
    }
    let s = if d == 0 {
        "0"
    } else if d == 1 {
        "1"
    } else if d == 2 {
        "2"
    } else if d == 3 {
        "3"
    } else if d == 4 {
        "4"
    } else if d == 5 {
        "5"
    } else if d == 6 {
        "6"
    } else if d == 7 {
        "7"
    } else if d == 8 {
        "8"
    } else {
        "9"
    };
    assert(s@ =~= seq![digit_char(d as nat)]);
    s
}

/// Appends the decimal digits of `n` to `d`.
fn write_natural(d: &mut String, n: u64)
    ensures
        final(d)@ == old(d)@ + natural_text(n as nat),
    decreases n,
{
    if n >= 10 {
        write_natural(d, n / 10);
    }
    d.append(digit_str(n % 10));
    assert(d@ =~= old(d)@ + natural_text(n as nat));
}

/// Appends the fractional part of a coordinate to `d`.
fn write_fraction(d: &mut String, f: u64)
    requires
        f < 1000,
    ensures
        final(d)@ == old(d)@ + fraction_text(f as nat),
{
    if f != 0 {
        proof {
            reveal_strlit(".");
        }
        d.append(".");
        d.append(digit_str(f / 100));
        if f % 100 != 0 {
            d.append(digit_str(f / 10 % 10));
            if f % 10 != 0 {
                d.append(digit_str(f % 10));
            }
        }
    }
    assert(d@ =~= old(d)@ + fraction_text(f as nat));
}

/// Appends the text of the coordinate `v` to `d`.
pub fn write_decimal(d: &mut String, v: i64)
    ensures
        final(d)@ == old(d)@ + decimal_text(v as int),
{
    let m: u64 = if v < 0 {
        proof {
            reveal_strlit("-");
        }
        d.append("-");
        ((-(v + 1)) as u64) + 1
    } else {
        v as u64
    };
    write_natural(d, m / 1000);
    write_fraction(d, m % 1000);
    assert(d@ =~= old(d)@ + decimal_text(v as int));
}

/// Whether `c` is a decimal digit.
pub open spec fn is_digit_char(c: char) -> bool {
    ||| c == '0'
    ||| c == '1'
    ||| c == '2'
    ||| c == '3'
    ||| c == '4'
    ||| c == '5'
    ||| c == '6'
    ||| c == '7'
    ||| c == '8'
    ||| c == '9'
}

/// Whether `c` is one of the characters that the text of a coordinate is made of:
/// a digit, the minus sign or the point.
pub open spec fn is_decimal_char(c: char) -> bool {
    is_digit_char(c) || c == '-' || c == '.'
}

/// The text of a number is at least one character long and made of digits.
pub proof fn lemma_natural_text_chars(n: nat)
    ensures
        natural_text(n).len() >= 1,
        forall|i: int| 0 <= i < natural_text(n).len() ==> is_digit_char(natural_text(n)[i]),
    decreases n,
{
    if n >= 10 {
        lemma_natural_text_chars(n / 10);
    }
}

/// The text of a coordinate is made of digits, the minus sign and the point.
pub proof fn lemma_decimal_text_chars(v: int)
    ensures
        decimal_text(v).len() >= 1,
        forall|i: int| 0 <= i < decimal_text(v).len() ==> is_decimal_char(decimal_text(v)[i]),
{
    let m: nat = if v < 0 {
        (-v) as nat
    } else {
        v as nat
    };
    lemma_natural_text_chars(m / 1000);
}

/// The value of the digit `c`.
pub open spec fn digit_value(c: char) -> nat
    recommends
        is_digit_char(c),
{
    if c == '1' {
        1
    } else if c == '2' {
        2
    } else if c == '3' {
        3
    } else if c == '4' {
        4
    } else if c == '5' {
        5
    } else if c == '6' {
        6
    } else if c == '7' {
        7
    } else if c == '8' {
        8
    } else if c == '9' {
        9
    } else {
        0
    }
}

/// The number that the digits `s` denote.
pub open spec fn natural_value(s: Seq<char>) -> nat
    decreases s.len(),
{
    if s.len() == 0 {
        0
    } else {
        10 * natural_value(s.drop_last()) + digit_value(s.last())
    }
}

/// The thousandths that the digits `s` denote when they stand behind the point:
/// the first counts hundreds, the second tens, the third ones.
pub open spec fn fraction_value(s: Seq<char>) -> nat {
    (if s.len() > 0 {
        100 * digit_value(s[0])
    } else {
        0
    }) + (if s.len() > 1 {
        10 * digit_value(s[1])
    } else {
        0
    }) + (if s.len() > 2 {
        digit_value(s[2])
    } else {
        0
    })
}

/// The index of the first point in `s`, or the length of `s` where it has none.
pub open spec fn point_index(s: Seq<char>) -> int
    decreases s.len(),
{
    if s.len() == 0 || s[0] == '.' {
        0
    } else {
        1 + point_index(s.skip(1))
    }
}

/// The thousandths that the text `s` denotes, read as a number without a sign:
/// the digits before the first point count pixels, those behind it thousandths.
pub open spec fn magnitude_value(s: Seq<char>) -> nat {
    let k = point_index(s);
    1000 * natural_value(s.take(k)) + if k < s.len() {
        fraction_value(s.skip(k + 1))
    } else {
        0
    }
}

/// The coordinate that the text `s` denotes, in thousandths of a pixel.
pub open spec fn decimal_value(s: Seq<char>) -> int {
    if s.len() > 0 && s[0] == '-' {
        -(magnitude_value(s.skip(1)) as int)
    } else {
        magnitude_value(s) as int
    }
}

/// The text of a number denotes that number.
pub proof fn lemma_natural_text_reads_back(n: nat)
    ensures
        natural_value(natural_text(n)) == n,
    decreases n,
{
    if n < 10 {
        assert(natural_text(n).drop_last() =~= Seq::<char>::empty());
        assert(natural_value(natural_text(n)) == 10 * natural_value(Seq::<char>::empty())
            + digit_value(digit_char(n)));
    } else {
        lemma_natural_text_reads_back(n / 10);
        assert(natural_text(n).drop_last() =~= natural_text(n / 10));
    }
}

/// Behind a text without a point, the first point is as far as it is in what follows.
proof fn lemma_point_index_concat(a: Seq<char>, b: Seq<char>)
    requires
        forall|i: int| 0 <= i < a.len() ==> a[i] != '.',
    ensures
        point_index(a + b) == a.len() + point_index(b),
    decreases a.len(),
{
    if a.len() == 0 {
        assert(a + b =~= b);
    } else {
        assert((a + b).skip(1) =~= a.skip(1) + b);
        lemma_point_index_concat(a.skip(1), b);
    }
}

/// The text of thousandths without a sign denotes them.
proof fn lemma_magnitude_text_reads_back(m: nat)
    ensures
        magnitude_value(magnitude_text(m)) == m,
{
    let whole = natural_text(m / 1000);
    let f = m % 1000;
    let fraction = fraction_text(f);
    let s = magnitude_text(m);
    lemma_natural_text_chars(m / 1000);
    lemma_natural_text_reads_back(m / 1000);
    lemma_point_index_concat(whole, fraction);
    assert(point_index(fraction) == 0);
    assert(s.take(whole.len() as int) =~= whole);
    if f != 0 {
        let digits = s.skip(whole.len() as int + 1);
        assert(digits =~= fraction.skip(1));
        assert(forall|d: nat| d < 10 ==> digit_value(#[trigger] digit_char(d)) == d);
        assert(f == 100 * (f / 100) + 10 * (f / 10 % 10) + f % 10);
    }
}

/// The text of a coordinate denotes that coordinate. So two coordinates with the
/// same text are the same.
pub proof fn lemma_decimal_text_reads_back(v: int)
    ensures
        decimal_value(decimal_text(v)) == v,
{
    if v < 0 {
        let m = (-v) as nat;
        assert(decimal_text(v).skip(1) =~= magnitude_text(m));
        lemma_magnitude_text_reads_back(m);
    } else {
        let m = v as nat;
        lemma_natural_text_chars(m / 1000);
        assert(decimal_text(v)[0] == natural_text(m / 1000)[0]);
        lemma_magnitude_text_reads_back(m);
    }
}

} // verus!
