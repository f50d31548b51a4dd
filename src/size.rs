//! Font size values: a decimal number in the form a float literal takes
//! (optional `+`, digits with an optional point, optional exponent), rounded
//! half up to hundredths of a point.
use vstd::prelude::*;
use vstd::string::StrSliceExecFns;
use vstd::arithmetic::div_mod::{lemma_basic_div_specific_divisor, lemma_small_mod};

verus! {

pub open spec fn is_digit(c: char) -> bool {
    '0' <= c && c <= '9'
}

pub open spec fn digit_value(c: char) -> nat {
    (c as int - '0' as int) as nat
}

/// The number that a sequence of decimal digits spells.
pub open spec fn number_value(s: Seq<char>) -> nat
    decreases s.len(),
{
    if s.len() == 0 {
        0
    } else {
        number_value(s.drop_last()) * 10 + digit_value(s.last())
    }
}

pub open spec fn pow10(n: nat) -> nat
    decreases n,
{
    if n == 0 {
        1
    } else {
        10 * pow10((n - 1) as nat)
    }
}

/// The end of the run of digits that starts at `i`.
pub open spec fn digits_end(s: Seq<char>, i: int) -> int
    decreases s.len() - i,
{
    if 0 <= i < s.len() && is_digit(s[i]) {
        digits_end(s, i + 1)
    } else {
        i
    }
}

/// Most digits read before the exponent.
pub open spec fn max_digits() -> int {
    30
}

/// Most digits read in the exponent.
pub open spec fn max_exponent_digits() -> int {
    3
}

/// A size text split into the digits it gives and the power of ten that
/// scales them: `12.5e1` gives the digits `125` and the power 0. Texts with
/// more digits before the exponent, or in it, than the limits are not read.
pub open spec fn decimal_parts(s: Seq<char>) -> Option<(Seq<char>, int)> {
    let p0: int = if s.len() > 0 && s[0] == '+' { 1 } else { 0 };
    let i1 = digits_end(s, p0);
    let f0 = if i1 < s.len() && s[i1] == '.' { i1 + 1 } else { i1 };
    let i2 = digits_end(s, f0);
    let digits = s.subrange(p0, i1) + s.subrange(f0, i2);
    let frac = i2 - f0;
    if digits.len() == 0 || digits.len() > max_digits() {
        None
    } else if i2 == s.len() {
        Some((digits, -frac))
    } else {
        match exponent_of(s, i2) {
            Some(e) => Some((digits, e - frac)),
            None => None,
        }
    }
}

/// The exponent written from `i` to the end of `s`: `e` or `E`, an optional
/// sign, and one to three digits.
pub open spec fn exponent_of(s: Seq<char>, i: int) -> Option<int> {
    if 0 <= i < s.len() && (s[i] == 'e' || s[i] == 'E') {
        let e0 = i + 1;
        let negative = e0 < s.len() && s[e0] == '-';
        let d0 = if e0 < s.len() && (s[e0] == '-' || s[e0] == '+') { e0 + 1 } else { e0 };
        let d1 = digits_end(s, d0);
        if d1 == s.len() && d0 < d1 && d1 - d0 <= max_exponent_digits() {
            let e = number_value(s.subrange(d0, d1)) as int;
            Some(if negative { -e } else { e })
        } else {
            None
        }
    } else {
        None
    }
}

/// `n` times ten to the `scale`, rounded half up to a whole number.
pub open spec fn round_scaled(n: nat, scale: int) -> nat {
    if scale >= 0 {
        n * pow10(scale as nat)
    } else {
        let d = pow10((-scale) as nat);
        n / d + if 2 * (n % d) >= d {
            1nat
        } else {
            0nat
        }
    }
}

/// The size, in hundredths of a point, that a declaration value gives;
/// a size too large for the catalog is not read.
pub open spec fn font_size_of(s: Seq<char>) -> Option<nat> {
    match decimal_parts(s) {
        Some((digits, power)) => {
            let h = round_scaled(number_value(digits), power + 2);
            if h <= u32::MAX {
                Some(h)
            } else {
                None
            }
        },
        None => None,
    }
}

proof fn lemma_pow10_positive(n: nat)
    ensures
        pow10(n) >= 1,
    decreases n,
{
    if n > 0 {
        lemma_pow10_positive((n - 1) as nat);
    }
}

proof fn lemma_pow10_mono(a: nat, b: nat)
    requires
        a <= b,
    ensures
        pow10(a) <= pow10(b),
    decreases b,
{
    if a < b {
        lemma_pow10_mono(a, (b - 1) as nat);
        lemma_pow10_positive((b - 1) as nat);
    }
}

proof fn lemma_pow10_values()
    ensures
        pow10(10) == 10000000000,
        pow10(30) == 1000000000000000000000000000000,
        pow10(31) == 10000000000000000000000000000000,
{
    reveal_with_fuel(pow10, 32);
}

/// Ten to the `k`.
fn pow10_exec(k: u32) -> (r: u128)
    requires
        k <= 30,
    ensures
        r == pow10(k as nat),
{
    let mut p: u128 = 1;
    let mut i: u32 = 0;
    while i < k
        invariant
            i <= k <= 30,
            p == pow10(i as nat),
        decreases k - i,
    {
        proof {
            lemma_pow10_mono((i + 1) as nat, 30);
            lemma_pow10_values();
        }
        p = p * 10;
        i += 1;
    }
    p
}

/// The end of the run of digits in `s` that starts at `i`.
fn scan_digits(s: &str, i: usize) -> (r: usize)
    requires
        i <= s@.len(),
    ensures
        r == digits_end(s@, i as int),
        i <= r <= s@.len(),
{
    let n = s.unicode_len();
    let mut j = i;
    while j < n && '0' <= s.get_char(j) && s.get_char(j) <= '9'
        invariant
            n == s@.len(),
            i <= j <= n,
            digits_end(s@, i as int) == digits_end(s@, j as int),
        decreases n - j,
    {
        j += 1;
    }
    j
}

/// The number that `base` followed by the digits `s[from..to]` spells,
/// given the number `v` that `base` spells.
fn extend_number(s: &str, from: usize, to: usize, v: u128, Ghost(base): Ghost<Seq<char>>) -> (r:
    u128)
    requires
        from <= to <= s@.len(),
        to == digits_end(s@, from as int) || forall|j: int| from <= j < to ==> is_digit(#[trigger] s@[j]),
        base.len() + (to - from) <= max_digits(),
        v == number_value(base),
        v < pow10(base.len()),
    ensures
        r == number_value(base + s@.subrange(from as int, to as int)),
        r < pow10((base.len() + (to - from)) as nat),
{
    proof {
        lemma_digit_run(s@, from as int, to as int);
    }
    let mut acc = v;
    let mut i = from;
    while i < to
        invariant
            from <= i <= to <= s@.len(),
            forall|j: int| from <= j < to ==> is_digit(#[trigger] s@[j]),
            base.len() + (to - from) <= max_digits(),
            acc == number_value(base + s@.subrange(from as int, i as int)),
            acc < pow10((base.len() + (i - from)) as nat),
        decreases to - i,
    {
        let c = s.get_char(i);
        assert(is_digit(s@[i as int]));
        proof {
            let next = base + s@.subrange(from as int, i as int + 1);
            assert(next.drop_last() =~= base + s@.subrange(from as int, i as int));
            assert(next.last() == c);
            lemma_pow10_mono((base.len() + (i + 1 - from)) as nat, 30);
            lemma_pow10_values();
        }
        acc = acc * 10 + ((c as u32) - ('0' as u32)) as u128;
        i += 1;
    }
    acc
}

proof fn lemma_digit_run(s: Seq<char>, from: int, to: int)
    requires
        0 <= from <= to <= s.len(),
        to == digits_end(s, from) || forall|j: int| from <= j < to ==> is_digit(#[trigger] s[j]),
    ensures
        forall|j: int| from <= j < to ==> is_digit(#[trigger] s[j]),
    decreases to - from,
{
    if to != digits_end(s, from) {
    } else if from < to {
        assert(is_digit(s[from]));
        lemma_digit_run(s, from + 1, to);
    }
}

/// `n` times ten to the `scale`, rounded half up, where it fits the catalog.
fn scaled_hundredths(n: u128, scale: i64) -> (r: Option<u32>)
    requires
        n < pow10(30),
        -2000 <= scale <= 2000,
    ensures
        r == (if round_scaled(n as nat, scale as int) <= u32::MAX {
            Some(round_scaled(n as nat, scale as int) as u32)
        } else {
            None
        }),
{
    proof {
        lemma_pow10_values();
        lemma_pow10_positive(if scale >= 0 { scale as nat } else { (-scale) as nat });
    }
    if n == 0 {
        proof {
            let d = pow10((-(scale as int)) as nat);
            if scale < 0 {
                lemma_basic_div_specific_divisor(d as int);
                lemma_small_mod(0, d);
                assert(0nat / d == 0) by (nonlinear_arith)
                    requires d >= 1;
            }
        }
        return Some(0);
    }
    if scale >= 0 {
        let ghost p = pow10(scale as nat);
        if scale >= 10 {
            proof {
                lemma_pow10_mono(10, scale as nat);
                assert(n * p >= p) by (nonlinear_arith)
                    requires n >= 1, p >= 1;
            }
            return None;
        }
        if n > 4294967295 {
            proof {
                assert(n * p >= n) by (nonlinear_arith)
                    requires n >= 1, p >= 1;
            }
            return None;
        }
        let pe = pow10_exec(scale as u32);
        proof {
            lemma_pow10_mono(scale as nat, 10);
            assert(n * pe <= 4294967295 * 10000000000) by (nonlinear_arith)
                requires n <= 4294967295, pe <= 10000000000;
        }
        let h = n * pe;
        if h <= 4294967295 {
            Some(h as u32)
        } else {
            None
        }
    } else {
        let k: i64 = -scale;
        if k > 30 {
            proof {
                let d = pow10(k as nat);
                lemma_pow10_mono(31, k as nat);
                lemma_basic_div_specific_divisor(d as int);
                lemma_small_mod(n as nat, d);
                assert(n as nat / d == 0) by (nonlinear_arith)
                    requires n < d, n >= 0;
            }
            return Some(0);
        }
        let d = pow10_exec(k as u32);
        proof {
            lemma_pow10_mono(k as nat, 30);
        }
        let q = n / d;
        let rm = n % d;
        proof {
            assert(q <= n) by (nonlinear_arith)
                requires q == n / d, d >= 1, n >= 0;
            assert(rm < d) by (nonlinear_arith)
                requires rm == n % d, d >= 1;
        }
        let h: u128 = if 2 * rm >= d {
            q + 1
        } else {
            q
        };
        if h <= 4294967295 {
            Some(h as u32)
        } else {
            None
        }
    }
}

/// Reads the exponent that runs from `i` to the end of `s`.
fn read_exponent(s: &str, i: usize) -> (r: Option<i64>)
    requires
        i < s@.len(),
    ensures
        match exponent_of(s@, i as int) {
            Some(e) => r == Some(e as i64) && -1000 < e < 1000,
            None => r is None,
        },
{
    let n = s.unicode_len();
    let c = s.get_char(i);
    if c != 'e' && c != 'E' {
        return None;
    }
    let e0 = i + 1;
    let negative = e0 < n && s.get_char(e0) == '-';
    let d0: usize = if e0 < n && (s.get_char(e0) == '-' || s.get_char(e0) == '+') {
        e0 + 1
    } else {
        e0
    };
    let d1 = scan_digits(s, d0);
    if d1 != n || d1 == d0 || d1 - d0 > 3 {
        return None;
    }
    proof {
        assert(Seq::<char>::empty() + s@.subrange(d0 as int, d1 as int) =~= s@.subrange(
            d0 as int,
            d1 as int,
        ));
        lemma_pow10_values();
        reveal_with_fuel(pow10, 4);
    }
    let e = extend_number(s, d0, d1, 0, Ghost(Seq::empty()));
    proof {
        lemma_pow10_mono((d1 - d0) as nat, 3);
        reveal_with_fuel(pow10, 4);
    }
    if negative {
        Some(-(e as i64))
    } else {
        Some(e as i64)
    }
}

/// Reads a font size: an optional `+`, digits with an optional point (at
/// least one digit, at most thirty), and an optional exponent of one to three
/// digits, rounded half up to hundredths. A negative, infinite or
/// not-a-number value, or one beyond the catalog's range, is not read.
pub fn parse_font_size(s: &str) -> (r: Option<crate::style::FontSize>)
    ensures
        r == match font_size_of(s@) {
            Some(h) => Some(crate::style::FontSize { hundredths: h as u32 }),
            None => None,
        },
{
    let n = s.unicode_len();
    let p0: usize = if n > 0 && s.get_char(0) == '+' {
        1
    } else {
        0
    };
    let i1 = scan_digits(s, p0);
    let f0: usize = if i1 < n && s.get_char(i1) == '.' {
        i1 + 1
    } else {
        i1
    };
    let i2 = scan_digits(s, f0);
    let count = (i1 - p0) + (i2 - f0);
    if count == 0 || count > 30 {
        proof {
            assert((s@.subrange(p0 as int, i1 as int) + s@.subrange(f0 as int, i2 as int)).len()
                == count);
        }
        return None;
    }
    let power: i64 = if i2 < n {
        match read_exponent(s, i2) {
            Some(e) => e,
            None => return None,
        }
    } else {
        0
    };
    proof {
        lemma_pow10_values();
    }
    let int_part = extend_number(s, p0, i1, 0, Ghost(Seq::empty()));
    let ghost int_digits = Seq::<char>::empty() + s@.subrange(p0 as int, i1 as int);
    let mant = extend_number(s, f0, i2, int_part, Ghost(int_digits));
    proof {
        assert(int_digits =~= s@.subrange(p0 as int, i1 as int));
        lemma_pow10_mono(count as nat, 30);
    }
    let scale: i64 = power - ((i2 - f0) as i64) + 2;
    match scaled_hundredths(mant, scale) {
        Some(h) => Some(crate::style::FontSize { hundredths: h }),
        None => None,
    }
}

} // verus!
