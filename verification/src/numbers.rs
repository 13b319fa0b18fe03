//! Text of numbers in binary, decimal and upper-case hexadecimal, padded on
//! the left with zeros to a least width, as Rust's `{:0Nb}`, `{}` and
//! `{:0NX}` print them.

use vstd::prelude::*;

verus! {

/// The character of digit `d` (`0`-`9`, then `A`-`F`).
pub open spec fn digit(d: nat) -> Seq<char> {
    if d == 0 {
        "0"@
    } else if d == 1 {
        "1"@
    } else if d == 2 {
        "2"@
    } else if d == 3 {
        "3"@
    } else if d == 4 {
        "4"@
    } else if d == 5 {
        "5"@
    } else if d == 6 {
        "6"@
    } else if d == 7 {
        "7"@
    } else if d == 8 {
        "8"@
    } else if d == 9 {
        "9"@
    } else if d == 10 {
        "A"@
    } else if d == 11 {
        "B"@
    } else if d == 12 {
        "C"@
    } else if d == 13 {
        "D"@
    } else if d == 14 {
        "E"@
    } else {
        "F"@
    }
}

/// Dividing by a base of at least two makes a number of at least the base smaller.
pub proof fn lemma_quotient_smaller(n: nat, radix: nat)
    requires
        2 <= radix <= n,
    ensures
        n / radix < n,
{
    assert(n / radix < n) by (nonlinear_arith)
        requires
            2 <= radix <= n,
    ;
}

/// The digits of `n` in base `radix`, most significant first, without
/// leading zeros (`0` is written as one digit).
pub open spec fn radix_digits(n: nat, radix: nat) -> Seq<char>
    decreases n,
{
    if radix < 2 || n < radix {
        digit(n)
    } else {
        proof {
            lemma_quotient_smaller(n, radix);
        }
        radix_digits(n / radix, radix) + digit(n % radix)
    }
}

/// The number of digits of `n` in base `radix`.
pub open spec fn digit_count(n: nat, radix: nat) -> nat
    decreases n,
{
    if radix < 2 || n < radix {
        1
    } else {
        proof {
            lemma_quotient_smaller(n, radix);
        }
        digit_count(n / radix, radix) + 1
    }
}

/// `k` zero characters.
pub open spec fn zeros(k: nat) -> Seq<char>
    decreases k,
{
    if k == 0 {
        seq![]
    } else {
        zeros((k - 1) as nat) + "0"@
    }
}

/// `n` in base `radix`, padded on the left with zeros to at least `width`
/// characters.
pub open spec fn padded(n: nat, radix: nat, width: nat) -> Seq<char> {
    let count: nat = digit_count(n, radix);
    if count < width {
        zeros((width - count) as nat) + radix_digits(n, radix)
    } else {
        radix_digits(n, radix)
    }
}

/// `n` as `{:0Nb}` prints it, with `N == width`.
pub open spec fn binary(n: nat, width: nat) -> Seq<char> {
    padded(n, 2, width)
}

/// `n` as `{}` prints it.
pub open spec fn decimal(n: nat) -> Seq<char> {
    radix_digits(n, 10)
}

/// `n` as `{:02X}` prints it.
pub open spec fn hex2(n: nat) -> Seq<char> {
    padded(n, 16, 2)
}

/// The text of digit `d`.
pub fn digit_text(d: u16) -> (s: &'static str)
    requires
        d < 16,
    ensures
        s@ == digit(d as nat),
{
    if d == 0 {
        "0"
    } else if d == 1 {
        "1"
    } else if d == 2 {
        "2"
    } else if d == 3 {
        "3"
    } else if d == 4 {
        "4"
    } else if d == 5 {
        "5"
    } else if d == 6 {
        "6"
    } else if d == 7 {
        "7"
    } else if d == 8 {
        "8"
    } else if d == 9 {
        "9"
    } else if d == 10 {
        "A"
    } else if d == 11 {
        "B"
    } else if d == 12 {
        "C"
    } else if d == 13 {
        "D"
    } else if d == 14 {
        "E"
    } else {
        "F"
    }
}

/// Appends the digits of `n` in base `radix` to `out`.
pub fn push_digits(out: &mut String, n: u16, radix: u16)
    requires
        2 <= radix <= 16,
    ensures
        final(out)@ == old(out)@ + radix_digits(n as nat, radix as nat),
    decreases n,
{
    if n < radix {
        out.append(digit_text(n));
    } else {
        proof {
            lemma_quotient_smaller(n as nat, radix as nat);
        }
        push_digits(out, n / radix, radix);
        out.append(digit_text(n % radix));
    }
}

/// A number has no more digits than one plus its value.
proof fn lemma_count_small(n: nat, radix: nat)
    ensures
        digit_count(n, radix) <= n + 1,
    decreases n,
{
    if radix >= 2 && n >= radix {
        assert(n / radix <= n / 2) by (nonlinear_arith)
            requires
                2 <= radix,
        ;
        lemma_count_small(n / radix, radix);
    }
}

/// The number of digits of `n` in base `radix`.
pub fn count_digits(n: u16, radix: u16) -> (c: u32)
    requires
        2 <= radix <= 16,
    ensures
        c == digit_count(n as nat, radix as nat),
    decreases n,
{
    proof {
        lemma_count_small(n as nat, radix as nat);
    }
    if n < radix {
        1
    } else {
        let c: u32 = count_digits(n / radix, radix);
        c + 1
    }
}

/// Appends `k` zero characters to `out`.
pub fn push_zeros(out: &mut String, k: u32)
    ensures
        final(out)@ == old(out)@ + zeros(k as nat),
{
    let mut i: u32 = 0;
    while i < k
        invariant
            i <= k,
            out@ == old(out)@ + zeros(i as nat),
        decreases k - i,
    {
        out.append("0");
        i = i + 1;
        assert(out@ =~= old(out)@ + zeros(i as nat));
    }
}

/// Appends `n` in base `radix`, padded on the left with zeros to at least
/// `width` characters.
pub fn push_padded(out: &mut String, n: u16, radix: u16, width: u32)
    requires
        2 <= radix <= 16,
    ensures
        final(out)@ == old(out)@ + padded(n as nat, radix as nat, width as nat),
{
    let count: u32 = count_digits(n, radix);
    if count < width {
        push_zeros(out, width - count);
    }
    push_digits(out, n, radix);
    assert(out@ =~= old(out)@ + padded(n as nat, radix as nat, width as nat));
}

/// The value of a digit character, `-1` for a character that is no digit.
pub open spec fn char_value(c: char) -> int {
    if '0' <= c && c <= '9' {
        c as int - '0' as int
    } else if 'A' <= c && c <= 'F' {
        c as int - 'A' as int + 10
    } else {
        -1
    }
}

/// The number that the digit characters `s` denote in base `radix`.
pub open spec fn digits_value(s: Seq<char>, radix: nat) -> int
    decreases s.len(),
{
    if s.len() == 0 {
        0
    } else {
        digits_value(s.drop_last(), radix) * radix + char_value(s.last())
    }
}

/// Every character of `s` is a digit of base `radix`.
pub open spec fn all_digits(s: Seq<char>, radix: nat) -> bool {
    forall|i: int| 0 <= i < s.len() ==> 0 <= #[trigger] char_value(s[i]) < radix
}

/// Each digit is the one character whose value is the digit.
pub proof fn lemma_digit_char(d: nat)
    requires
        d < 16,
    ensures
        digit(d).len() == 1,
        char_value(digit(d)[0]) == d,
{
    reveal_strlit("0");
    reveal_strlit("1");
    reveal_strlit("2");
    reveal_strlit("3");
    reveal_strlit("4");
    reveal_strlit("5");
    reveal_strlit("6");
    reveal_strlit("7");
    reveal_strlit("8");
    reveal_strlit("9");
    reveal_strlit("A");
    reveal_strlit("B");
    reveal_strlit("C");
    reveal_strlit("D");
    reveal_strlit("E");
    reveal_strlit("F");
}

/// The digits of `n` denote `n`: each is a digit of the base, and the
/// first is not a zero unless `n` is zero.
pub proof fn lemma_radix_digits_value(n: nat, radix: nat)
    requires
        2 <= radix <= 16,
    ensures
        radix_digits(n, radix).len() >= 1,
        digits_value(radix_digits(n, radix), radix) == n,
        all_digits(radix_digits(n, radix), radix),
        n > 0 ==> char_value(radix_digits(n, radix)[0]) != 0,
    decreases n,
{
    let s = radix_digits(n, radix);
    if n < radix {
        lemma_digit_char(n);
        assert(s.drop_last() =~= Seq::<char>::empty());
        assert(digits_value(s.drop_last(), radix) == 0);
        assert(char_value(s.last()) == n);
    } else {
        lemma_quotient_smaller(n, radix);
        lemma_radix_digits_value(n / radix, radix);
        vstd::arithmetic::div_mod::lemma_small_mod((n % radix) as nat, radix);
        lemma_digit_char(n % radix);
        let high = radix_digits(n / radix, radix);
        assert(s.drop_last() =~= high);
        assert(s.last() == digit(n % radix)[0]);
        assert(s[0] == high[0]);
        assert(s.len() > 0);
        assert(digits_value(s, radix) == digits_value(high, radix) * radix + char_value(s.last()));
        assert(digits_value(high, radix) * radix == (n / radix) * radix);
        assert(char_value(s.last()) == n % radix);
        assert(n == (n / radix) * radix + n % radix) by {
            vstd::arithmetic::div_mod::lemma_fundamental_div_mod(n as int, radix as int);
            assert((n / radix) * radix == radix * (n / radix)) by (nonlinear_arith);
        }
        assert forall|i: int| 0 <= i < s.len() implies 0 <= #[trigger] char_value(s[i]) < radix by {
            if i < high.len() {
                assert(s[i] == high[i]);
            }
        }
    }
}

/// Zeros in front of digits do not change their value.
pub proof fn lemma_leading_zeros_value(k: nat, s: Seq<char>, radix: nat)
    ensures
        digits_value(zeros(k) + s, radix) == digits_value(s, radix),
    decreases s.len(), k,
{
    reveal_strlit("0");
    if s.len() == 0 {
        assert(zeros(k) + s =~= zeros(k));
        if k > 0 {
            lemma_leading_zeros_value((k - 1) as nat, s, radix);
            assert(zeros((k - 1) as nat) + s =~= zeros((k - 1) as nat));
            assert(zeros(k).drop_last() =~= zeros((k - 1) as nat));
        }
    } else {
        lemma_leading_zeros_value(k, s.drop_last(), radix);
        assert((zeros(k) + s).drop_last() =~= zeros(k) + s.drop_last());
    }
}

/// `k` zeros are `k` zero digits.
proof fn lemma_zeros_digits(k: nat, radix: nat)
    requires
        radix >= 1,
    ensures
        zeros(k).len() == k,
        forall|i: int| 0 <= i < k ==> #[trigger] zeros(k)[i] == '0',
    decreases k,
{
    reveal_strlit("0");
    if k > 0 {
        lemma_zeros_digits((k - 1) as nat, radix);
    }
}

/// Padded text denotes the number, is at least `width` characters long,
/// and has no more zeros in front than the width asks for: when it is
/// longer than `width`, it starts with a non-zero digit (or is `0`).
pub proof fn lemma_padded_value(n: nat, radix: nat, width: nat)
    requires
        2 <= radix <= 16,
    ensures
        digits_value(padded(n, radix, width), radix) == n,
        all_digits(padded(n, radix, width), radix),
        padded(n, radix, width).len() >= width,
        padded(n, radix, width).len() > width && n > 0 ==> char_value(padded(n, radix, width)[0]) != 0,
        padded(n, radix, width).len() > width ==> padded(n, radix, width) == radix_digits(n, radix),
{
    lemma_radix_digits_value(n, radix);
    lemma_digit_count_len(n, radix);
    let d = radix_digits(n, radix);
    let count = digit_count(n, radix);
    if count < width {
        let k = (width - count) as nat;
        lemma_leading_zeros_value(k, d, radix);
        lemma_zeros_digits(k, radix);
        let p = zeros(k) + d;
        assert forall|i: int| 0 <= i < p.len() implies 0 <= #[trigger] char_value(p[i]) < radix by {
            if i < k {
                assert(p[i] == zeros(k)[i]);
            } else {
                assert(p[i] == d[i - k]);
            }
        }
    }
}

/// `digit_count` is the length of `radix_digits`.
pub proof fn lemma_digit_count_len(n: nat, radix: nat)
    requires
        2 <= radix <= 16,
    ensures
        radix_digits(n, radix).len() == digit_count(n, radix),
    decreases n,
{
    if n < radix {
        lemma_digit_char(n);
    } else {
        lemma_quotient_smaller(n, radix);
        vstd::arithmetic::div_mod::lemma_small_mod((n % radix) as nat, radix);
        lemma_digit_char(n % radix);
        lemma_digit_count_len(n / radix, radix);
    }
}

} // verus!
