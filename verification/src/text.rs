//! Rendering of numbers and messages.
//!
//! Log lines, error texts and snapshot ids are part of what operators see, so
//! their exact characters are stated here, as sequences of `char`.
use vstd::prelude::*;
use vstd::string::*;

verus! {

/// The character of one digit in a numeral of at most sixteen digits.
pub open spec fn digit(d: nat) -> char
    recommends
        d < 16,
{
    if d < 10 {
        (48 + d) as char
    } else {
        (55 + d) as char
    }
}

/// The numeral of `n` in `base`, most significant digit first, without leading
/// zeros; zero is the single digit `0`.
pub open spec fn numeral(n: nat, base: nat) -> Seq<char>
    decreases n,
{
    if base < 2 || n < base {
        seq![digit(n)]
    } else {
        proof {
            assert(n / base < n) by (nonlinear_arith)
                requires
                    n >= base,
                    base >= 2,
            ;
        }
        numeral(n / base, base).push(digit(n % base))
    }
}

/// The decimal numeral of `n`.
pub open spec fn decimal(n: nat) -> Seq<char> {
    numeral(n, 10)
}

/// `width` zeros.
pub open spec fn zeros(width: int) -> Seq<char> {
    Seq::new(
        if width > 0 {
            width as nat
        } else {
            0
        },
        |i: int| '0',
    )
}

/// The numeral of `n` in `base`, filled up with leading zeros to at least
/// `width` characters.
pub open spec fn padded(n: nat, base: nat, width: nat) -> Seq<char> {
    zeros(width - numeral(n, base).len()) + numeral(n, base)
}

/// The value that a numeral stands for.
pub open spec fn numeral_value(s: Seq<char>, base: nat) -> nat
    decreases s.len(),
{
    if s.len() == 0 {
        0
    } else {
        numeral_value(s.drop_last(), base) * base + digit_value(s.last())
    }
}

/// The number that a digit character stands for.
pub open spec fn digit_value(c: char) -> nat {
    if c as nat >= 65 {
        (c as nat - 55) as nat
    } else if c as nat >= 48 {
        (c as nat - 48) as nat
    } else {
        0
    }
}

proof fn lemma_digit_value(d: nat)
    requires
        d < 16,
    ensures
        digit_value(digit(d)) == d,
{
}

/// A numeral read back gives the number it was written from.
pub proof fn lemma_numeral_reads_back(n: nat, base: nat)
    requires
        2 <= base <= 16,
    ensures
        numeral_value(numeral(n, base), base) == n,
        numeral(n, base).len() >= 1,
    decreases n,
{
    if n < base {
        lemma_digit_value(n);
        reveal_with_fuel(numeral_value, 2);
        assert(numeral(n, base).drop_last() =~= Seq::<char>::empty());
        assert(0 * base == 0) by (nonlinear_arith);
    } else {
        assert(n / base < n) by (nonlinear_arith)
            requires
                n >= base,
                base >= 2,
        ;
        lemma_numeral_reads_back(n / base, base);
        assert(n % base < base) by (nonlinear_arith)
            requires
                base >= 2,
        ;
        lemma_digit_value(n % base);
        assert(numeral(n, base).drop_last() =~= numeral(n / base, base));
        assert((n / base) * base + n % base == n) by (nonlinear_arith)
            requires
                base >= 2,
        ;
    }
}

proof fn lemma_zeros_value(s: Seq<char>, k: int, base: nat)
    requires
        k >= 0,
    ensures
        numeral_value(zeros(k) + s, base) == numeral_value(s, base),
    decreases s.len(), k,
{
    if s.len() == 0 {
        if k > 0 {
            lemma_zeros_value(s, k - 1, base);
            assert((zeros(k) + s).drop_last() =~= zeros(k - 1) + s);
            assert((zeros(k) + s).last() == '0');
            assert(numeral_value(zeros(k) + s, base) == 0 * base + 0) by {
                assert(digit_value('0') == 0);
            }
            assert(0 * base == 0) by (nonlinear_arith);
        } else {
            assert(zeros(k) + s =~= s);
        }
    } else {
        lemma_zeros_value(s.drop_last(), k, base);
        assert((zeros(k) + s).drop_last() =~= zeros(k) + s.drop_last());
        assert((zeros(k) + s).last() == s.last());
    }
}

/// Leading zeros do not change what a numeral stands for.
pub proof fn lemma_padded_reads_back(n: nat, base: nat, width: nat)
    requires
        2 <= base <= 16,
    ensures
        numeral_value(padded(n, base, width), base) == n,
        padded(n, base, width).len() >= width,
{
    lemma_numeral_reads_back(n, base);
    let k = width - numeral(n, base).len();
    if k >= 0 {
        lemma_zeros_value(numeral(n, base), k, base);
    } else {
        assert(padded(n, base, width) =~= numeral(n, base));
    }
}

/// Ten to the power `k`.
spec fn ten_to(k: nat) -> nat
    decreases k,
{
    if k == 0 {
        1
    } else {
        10 * ten_to((k - 1) as nat)
    }
}

proof fn lemma_decimal_len_below(n: nat, k: nat)
    requires
        n < ten_to(k),
        k >= 1,
    ensures
        decimal(n).len() <= k,
    decreases k,
{
    if n >= 10 {
        if k == 1 {
            assert(ten_to(1) == 10) by {
                reveal_with_fuel(ten_to, 2);
            }
        } else {
            lemma_decimal_len_below(n / 10, (k - 1) as nat);
        }
    }
}

/// Twenty digits are enough for every 64-bit number.
pub proof fn lemma_decimal_fits_twenty(n: u64)
    ensures
        decimal(n as nat).len() <= 20,
        padded(n as nat, 10, 20).len() == 20,
{
    assert(n < ten_to(20)) by {
        reveal_with_fuel(ten_to, 21);
    }
    lemma_decimal_len_below(n as nat, 20);
}

/// The digit `d` as a string slice of one character.
fn digit_text(d: u64) -> (r: &'static str)
    requires
        d < 16,
    ensures
        r@ == seq![digit(d as nat)],
{
    proof {
        reveal_strlit("0");
        reveal_strlit("1");
        reveal_strlit("2");
        reveal_strlit("3");
        reveal_strlit("4");
        reveal_strlit("5");
        reveal_strlit("6");
        reveal_strlit("7");
        reveal_strlit("8");
        reveal_strlit("9");
        reveal_strlit("A");
        reveal_strlit("B");
        reveal_strlit("C");
        reveal_strlit("D");
        reveal_strlit("E");
        reveal_strlit("F");
    }
    let r: &'static str = match d {
        0 => "0",
        1 => "1",
        2 => "2",
        3 => "3",
        4 => "4",
        5 => "5",
        6 => "6",
        7 => "7",
        8 => "8",
        9 => "9",
        10 => "A",
        11 => "B",
        12 => "C",
        13 => "D",
        14 => "E",
        _ => "F",
    };
    assert(r@ =~= seq![digit(d as nat)]);
    r
}

/// Appends the numeral of `n` in `base`.
pub fn push_numeral(out: &mut String, n: u64, base: u64)
    requires
        2 <= base <= 16,
    ensures
        final(out)@ == old(out)@ + numeral(n as nat, base as nat),
    decreases n,
{
    if n < base {
        out.append(digit_text(n));
    } else {
        let high: u64 = n / base;
        let low: u64 = n % base;
        proof {
            assert(n / base < n) by (nonlinear_arith)
                requires
                    n >= base,
                    base >= 2,
            ;
        }
        push_numeral(out, high, base);
        out.append(digit_text(low));
        assert(out@ =~= old(out)@ + numeral(n as nat, base as nat));
    }
}

/// Appends the decimal numeral of `n`.
pub fn push_decimal(out: &mut String, n: u64)
    ensures
        final(out)@ == old(out)@ + decimal(n as nat),
{
    push_numeral(out, n, 10);
}

/// How many digits the numeral of `n` in `base` has.
fn numeral_len(n: u64, base: u64) -> (len: u64)
    requires
        2 <= base <= 16,
    ensures
        len == numeral(n as nat, base as nat).len(),
        1 <= len,
        n > 0 ==> len <= n,
    decreases n,
{
    if n < base {
        1
    } else {
        let high: u64 = n / base;
        proof {
            assert(n / base < n) by (nonlinear_arith)
                requires
                    n >= base,
                    base >= 2,
            ;
            assert(1 <= n / base <= n / 2) by (nonlinear_arith)
                requires
                    n >= base,
                    base >= 2,
            ;
        }
        numeral_len(high, base) + 1
    }
}

/// Appends the numeral of `n` in `base`, filled up to `width` with zeros.
pub fn push_padded(out: &mut String, n: u64, base: u64, width: u64)
    requires
        2 <= base <= 16,
    ensures
        final(out)@ == old(out)@ + padded(n as nat, base as nat, width as nat),
{
    let len: u64 = numeral_len(n, base);
    let mut filled: u64 = 0;
    let ghost start = out@;
    assert(start + zeros(0) =~= start);
    while len < width && filled < width - len
        invariant
            filled <= width,
            len < width ==> filled <= width - len,
            len >= width ==> filled == 0,
            out@ == start + zeros(filled as int),
        decreases width - filled,
    {
        out.append(digit_text(0));
        assert(digit(0) == '0');
        assert(out@ =~= start + zeros(filled + 1));
        filled = filled + 1;
    }
    assert(zeros(filled as int) =~= zeros(width - len));
    push_numeral(out, n, base);
    assert(out@ =~= start + padded(n as nat, base as nat, width as nat));
}

/// `prefix` followed by `detail`.
pub fn prefixed(prefix: &str, detail: &str) -> (r: String)
    ensures
        r@ == prefix@ + detail@,
{
    let mut r = prefix.to_owned();
    r.append(detail);
    r
}

/// A decimal numeral is made of decimal digits only, and none of them is a leading zero; read
/// back, it gives the number.
pub proof fn law_decimal_numerals_are_decimal(n: nat, i: int)
    requires
        0 <= i < decimal(n).len(),
    ensures
        48 <= decimal(n)[i] as nat <= 57,
        n > 0 ==> decimal(n)[0] as nat != 48,
        numeral_value(decimal(n), 10) == n,
    decreases n,
{
    lemma_numeral_reads_back(n, 10);
    if n >= 10 {
        let rest = decimal(n / 10);
        lemma_numeral_reads_back(n / 10, 10);
        law_decimal_numerals_are_decimal(n / 10, 0);
        if i < rest.len() {
            law_decimal_numerals_are_decimal(n / 10, i);
        }
        assert(decimal(n) == rest.push(digit(n % 10)));
    }
}

/// A padded numeral has at least the given width, and the same value as without the zeros in
/// front.
pub proof fn law_padding_keeps_the_number(n: nat, base: nat, width: nat, i: int)
    requires
        2 <= base <= 16,
    ensures
        padded(n, base, width).len() >= width,
        numeral(n, base).len() <= width ==> padded(n, base, width).len() == width,
        0 <= i < padded(n, base, width).len() - numeral(n, base).len() ==> padded(
            n,
            base,
            width,
        )[i] == '0',
        numeral_value(padded(n, base, width), base) == n,
{
    lemma_padded_reads_back(n, base, width);
}

} // verus!
