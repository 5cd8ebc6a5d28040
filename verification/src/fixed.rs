//! Fixed-point amounts and the decimal parser for the venue's numeric text.
//!
//! An amount (a price, a quantity, a percentage) is an `i64` counting
//! micro-units: the number `1.5` is stored as `1_500_000`. Every amount the
//! library works with lies in `[-MAX_AMOUNT, MAX_AMOUNT]`, which leaves ample
//! headroom in `i64` and `i128` for the engine's arithmetic.
//!
//! The venue reports numbers as text. `parse_amount` accepts an optional
//! leading minus, one or more integer digits, and an optional fraction behind
//! a single dot; fraction digits beyond the sixth are read but do not change
//! the value (the amount is truncated toward zero to micro-units). Malformed
//! or out-of-range text yields `None` rather than a silent default.

use vstd::prelude::*;

verus! {

/// Micro-units in one whole unit.
pub const SCALE: i64 = 1_000_000;

/// Largest magnitude an amount may have: one billion whole units.
pub const MAX_AMOUNT: i64 = 1_000_000_000_000_000;

/// Truncating division (the quotient is rounded toward zero), for a positive
/// divisor. This is the rounding that the engine's exponential averages use.
pub open spec fn tdiv(a: int, b: int) -> int {
    if a >= 0 {
        a / b
    } else {
        -((-a) / b)
    }
}

/// Truncating division on machine integers.
pub fn div_trunc(a: i128, b: i128) -> (r: i128)
    requires
        b > 0,
        a > i128::MIN,
    ensures
        r == tdiv(a as int, b as int),
{
    if a >= 0 {
        a / b
    } else {
        let m = -a;
        -(m / b)
    }
}

/// Character-for-character string equality.
pub fn str_eq(a: &str, b: &str) -> (r: bool)
    ensures
        r == (a@ == b@),
{
    let la = a.unicode_len();
    let lb = b.unicode_len();
    if la != lb {
        return false;
    }
    let mut i: usize = 0;
    while i < la
        invariant
            0 <= i <= la,
            la == a@.len(),
            la == b@.len(),
            forall|j: int| 0 <= j < i ==> a@[j] == b@[j],
        decreases la - i,
    {
        if a.get_char(i) != b.get_char(i) {
            return false;
        }
        i += 1;
    }
    proof {
        assert(a@ =~= b@);
    }
    true
}

/// Decimal digit.
pub open spec fn is_digit(c: char) -> bool {
    '0' <= c && c <= '9'
}

/// Numeric value of a decimal digit.
pub open spec fn digit_val(c: char) -> int {
    c as int - '0' as int
}

pub open spec fn all_digits(s: Seq<char>) -> bool {
    forall|i: int| 0 <= i < s.len() ==> is_digit(#[trigger] s[i])
}

/// Value of a digit string read in base ten.
pub open spec fn digits_val(s: Seq<char>) -> int
    decreases s.len(),
{
    if s.len() == 0 {
        0
    } else {
        digits_val(s.drop_last()) * 10 + digit_val(s.last())
    }
}

pub open spec fn pow10(n: nat) -> int
    decreases n,
{
    if n == 0 {
        1
    } else {
        10 * pow10((n - 1) as nat)
    }
}

/// `pow10` is positive.
pub proof fn lemma_pow10_pos(n: nat)
    ensures
        pow10(n) >= 1,
    decreases n,
{
    if n > 0 {
        lemma_pow10_pos((n - 1) as nat);
    }
}

/// `pow10` grows with its argument.
pub proof fn lemma_pow10_mono(a: nat, b: nat)
    requires
        a <= b,
    ensures
        pow10(a) <= pow10(b),
    decreases b,
{
    if a < b {
        lemma_pow10_mono(a, (b - 1) as nat);
        lemma_pow10_pos((b - 1) as nat);
    }
}

/// A digit string's value is non-negative and below `pow10` of its length.
pub proof fn lemma_digits_val_bounds(s: Seq<char>)
    requires
        all_digits(s),
    ensures
        0 <= digits_val(s) < pow10(s.len()),
    decreases s.len(),
{
    if s.len() > 0 {
        assert(all_digits(s.drop_last()));
        lemma_digits_val_bounds(s.drop_last());
        assert(is_digit(s[s.len() - 1]));
        assert(pow10(s.len()) == 10 * pow10((s.len() - 1) as nat));
    }
}

/// Index of the first occurrence of `sep` in `s`, or `s.len()` if there is
/// none.
pub open spec fn sep_index(s: Seq<char>, sep: char) -> int
    decreases s.len(),
{
    if s.len() == 0 {
        0
    } else if s[0] == sep {
        0
    } else {
        1 + sep_index(s.drop_first(), sep)
    }
}

/// `sep_index` points at the first occurrence, or past the end.
pub proof fn lemma_sep_index_props(s: Seq<char>, sep: char)
    ensures
        0 <= sep_index(s, sep) <= s.len(),
        forall|j: int| 0 <= j < sep_index(s, sep) ==> s[j] != sep,
        sep_index(s, sep) < s.len() ==> s[sep_index(s, sep)] == sep,
    decreases s.len(),
{
    if s.len() == 0 {
    } else if s[0] == sep {
    } else {
        lemma_sep_index_props(s.drop_first(), sep);
        assert forall|j: int| 0 <= j < sep_index(s, sep) implies s[j] != sep by {
            if j >= 1 {
                assert(s.drop_first()[j - 1] == s[j]);
            }
        }
        if sep_index(s, sep) < s.len() {
            assert(s.drop_first()[sep_index(s, sep) - 1] == s[sep_index(s, sep)]);
        }
    }
}

/// Index of the first `.` in `s`, or `s.len()` if there is none.
pub open spec fn dot_index(s: Seq<char>) -> int {
    sep_index(s, '.')
}

/// `dot_index` points at the first dot, or past the end.
pub proof fn lemma_dot_index_props(s: Seq<char>)
    ensures
        0 <= dot_index(s) <= s.len(),
        forall|j: int| 0 <= j < dot_index(s) ==> s[j] != '.',
        dot_index(s) < s.len() ==> s[dot_index(s)] == '.',
{
    lemma_sep_index_props(s, '.');
}

/// A number without its sign: one or more integer digits, optionally followed
/// by a dot and any run of fraction digits.
pub open spec fn wf_number(s: Seq<char>) -> bool {
    let d = dot_index(s);
    &&& d >= 1
    &&& all_digits(s.take(d))
    &&& (d == s.len() || all_digits(s.skip(d + 1)))
}

/// Micro-units named by a fraction-digit string: the first six digits count,
/// the rest are cut off.
pub open spec fn frac_units(f: Seq<char>) -> int {
    let k = if f.len() <= 6 {
        f.len() as int
    } else {
        6
    };
    digits_val(f.take(k)) * pow10((6 - k) as nat)
}

/// Micro-units named by an unsigned number.
pub open spec fn number_magnitude(s: Seq<char>) -> int {
    let d = dot_index(s);
    let frac = if d == s.len() {
        Seq::<char>::empty()
    } else {
        s.skip(d + 1)
    };
    digits_val(s.take(d)) * (SCALE as int) + frac_units(frac)
}

/// What `parse_amount` returns: the amount in micro-units, or `None` when the
/// text is not a well-formed decimal number or its magnitude exceeds
/// `MAX_AMOUNT`.
pub open spec fn spec_parse_amount(s: Seq<char>) -> Option<i64> {
    let neg = s.len() > 0 && s[0] == '-';
    let body = if neg {
        s.drop_first()
    } else {
        s
    };
    if !wf_number(body) {
        None
    } else {
        let m = number_magnitude(body);
        if m > MAX_AMOUNT {
            None
        } else if neg {
            Some((-m) as i64)
        } else {
            Some(m as i64)
        }
    }
}

fn pow10_u64(n: usize) -> (r: u64)
    requires
        n <= 6,
    ensures
        r == pow10(n as nat),
{
    proof {
        reveal_with_fuel(pow10, 8);
    }
    if n == 0 {
        1
    } else if n == 1 {
        10
    } else if n == 2 {
        100
    } else if n == 3 {
        1_000
    } else if n == 4 {
        10_000
    } else if n == 5 {
        100_000
    } else {
        1_000_000
    }
}

/// Read a fixed-point amount from the venue's decimal text.
pub fn parse_amount(s: &str) -> (r: Option<i64>)
    ensures
        r == spec_parse_amount(s@),
        r matches Some(v) ==> -MAX_AMOUNT <= v <= MAX_AMOUNT,
{
    let len = s.unicode_len();
    if len == 0 {
        return None;
    }
    let neg = s.get_char(0) == '-';
    let start: usize = if neg {
        1
    } else {
        0
    };
    let ghost body: Seq<char> = if neg {
        s@.drop_first()
    } else {
        s@
    };
    assert(body.len() == len - start);
    assert(forall|j: int| 0 <= j < body.len() ==> body[j] == s@[j + start]);

    // Integer part: digits up to the first dot or the end.
    let mut i: usize = start;
    let mut int_acc: u64 = 0;
    let mut big = false;
    while i < len && s.get_char(i) != '.'
        invariant
            start <= i <= len,
            start <= 1,
            len >= 1,
            len == s@.len(),
            neg == (s@[0] == '-'),
            start == if neg { 1int } else { 0int },
            body == if neg { s@.drop_first() } else { s@ },
            body.len() == len - start,
            forall|j: int| 0 <= j < body.len() ==> body[j] == s@[j + start],
            forall|j: int| 0 <= j < i - start ==> is_digit(#[trigger] body[j]) && body[j] != '.',
            !big ==> int_acc == digits_val(body.take(i - start)) && int_acc <= MAX_AMOUNT as u64,
            big ==> digits_val(body.take(i - start)) > MAX_AMOUNT as int,
        decreases len - i,
    {
        let c = s.get_char(i);
        let d = c as u32;
        if d < 48 || d > 57 {
            // not a digit (and not a dot): the integer part is malformed
            proof {
                lemma_dot_index_props(body);
                let di = dot_index(body);
                assert(body[i - start] == c && !is_digit(c));
                if di <= i - start {
                    assert(di < body.len());
                    assert(body[di] == '.');
                    assert(false);
                }
                assert(body.take(di)[i - start] == c);
                assert(!wf_number(body));
            }
            return None;
        }
        let dv = (d - 48) as u64;
        proof {
            assert(is_digit(body[i - start]) && digit_val(body[i - start]) == dv as int);
            assert(body.take(i - start + 1).drop_last() =~= body.take(i - start));
            assert(body.take(i - start + 1).last() == body[i - start]);
            assert(digits_val(body.take(i - start + 1)) == digits_val(body.take(i - start)) * 10
                + dv as int);
            if big {
                assert(digits_val(body.take(i - start)) * 10 > MAX_AMOUNT as int)
                    by (nonlinear_arith)
                    requires
                        digits_val(body.take(i - start)) > MAX_AMOUNT as int,
                ;
            }
        }
        if !big {
            let na = int_acc * 10 + dv;
            if na > MAX_AMOUNT as u64 {
                big = true;
            } else {
                int_acc = na;
            }
        }
        i += 1;
    }
    if i == start {
        // the integer part is empty: refused
        proof {
            if body.len() > 0 && body[0] == '.' {
                assert(dot_index(body) == 0);
            }
            assert(dot_index(body) < 1);
            assert(!wf_number(body));
        }
        return None;
    }
    proof {
        lemma_dot_index_props(body);
        let di = dot_index(body);
        if i < len {
            assert(body[i - start] == s@[i as int] && body[i - start] == '.');
            if di < i - start {
                assert(body[di] != '.');
                assert(body[di] == '.');
                assert(false);
            }
            if di > i - start {
                assert(body[i - start] != '.');
                assert(false);
            }
        } else {
            if di < body.len() {
                assert(body[di] == '.');
                assert(body[di] != '.');
                assert(false);
            }
        }
        assert(di == i - start);
        assert(all_digits(body.take(i - start)));
    }

    let ghost frac: Seq<char> = if i == len {
        Seq::<char>::empty()
    } else {
        body.skip(i - start + 1)
    };
    let mut frac_acc: u64 = 0;
    let mut fcount: usize = 0;
    if i < len {
        // fraction part behind the dot
        let mut j: usize = i + 1;
        while j < len
            invariant
                i + 1 <= j <= len,
                i < len,
                start <= i,
                start <= 1,
                len == s@.len(),
                neg == (s@[0] == '-'),
                start == if neg { 1int } else { 0int },
                body == if neg { s@.drop_first() } else { s@ },
                body.len() == len - start,
                forall|q: int| 0 <= q < body.len() ==> body[q] == s@[q + start],
                frac == body.skip(i - start + 1),
                frac.len() == len - i - 1,
                dot_index(body) == i - start,
                forall|q: int| 0 <= q < j - i - 1 ==> is_digit(#[trigger] frac[q]),
                fcount as int == if j - i - 1 <= 6 {
                    j - i - 1
                } else {
                    6int
                },
                frac_acc == digits_val(frac.take(fcount as int)),
                frac_acc < pow10(fcount as nat),
            decreases len - j,
        {
            let c = s.get_char(j);
            let d = c as u32;
            proof {
                assert(frac[j - i - 1] == body[j - start] && body[j - start] == s@[j as int]);
            }
            if d < 48 || d > 57 {
                proof {
                    lemma_dot_index_props(body);
                    assert(c == s@[j as int] && c == frac[j - i - 1]);
                    assert(!is_digit(frac[j - i - 1]));
                    assert(dot_index(body) < body.len());
                    assert(body.skip(dot_index(body) + 1) == frac);
                    assert(!wf_number(body));
                }
                return None;
            }
            if fcount < 6 {
                let dv = (d - 48) as u64;
                proof {
                    reveal_with_fuel(pow10, 8);
                    lemma_pow10_mono(fcount as nat, 5nat);
                    assert(frac.take(fcount + 1).drop_last() =~= frac.take(fcount as int));
                    assert(frac.take(fcount + 1).last() == frac[fcount as int]);
                    assert(is_digit(frac[fcount as int]) && digit_val(frac[fcount as int])
                        == dv as int);
                    assert(pow10((fcount + 1) as nat) == 10 * pow10(fcount as nat));
                }
                frac_acc = frac_acc * 10 + dv;
                fcount += 1;
            }
            j += 1;
        }
        proof {
            assert(all_digits(frac));
        }
    }
    proof {
        assert(all_digits(frac));
        assert(fcount as int == if frac.len() <= 6 {
            frac.len() as int
        } else {
            6int
        });
        assert(wf_number(body));
    }
    let mult = pow10_u64(6 - fcount);
    proof {
        reveal_with_fuel(pow10, 8);
        lemma_pow10_mono(fcount as nat, 6nat);
        lemma_pow10_mono((6 - fcount) as nat, 6nat);
        lemma_pow10_pos((6 - fcount) as nat);
        assert(frac_acc * mult < 1_000_000 * 1_000_000) by (nonlinear_arith)
            requires
                0 <= frac_acc < 1_000_000u64,
                0 <= mult <= 1_000_000u64,
        ;
    }
    let frac_micro = frac_acc * mult;
    proof {
        assert(frac_micro as int == frac_units(frac));
        assert(frac_micro as int >= 0);
    }
    if big {
        proof {
            let dvi = digits_val(body.take(dot_index(body)));
            assert(dvi * (SCALE as int) > MAX_AMOUNT as int) by (nonlinear_arith)
                requires
                    dvi > MAX_AMOUNT as int,
                    SCALE == 1_000_000i64,
                    MAX_AMOUNT as int >= 1,
            ;
            assert(number_magnitude(body) > MAX_AMOUNT as int);
        }
        return None;
    }
    let magnitude: u128 = (int_acc as u128) * 1_000_000 + (frac_micro as u128);
    proof {
        assert(number_magnitude(body) == magnitude as int);
    }
    if magnitude > MAX_AMOUNT as u128 {
        return None;
    }
    let m64 = magnitude as i64;
    if neg {
        Some(-m64)
    } else {
        Some(m64)
    }
}

} // verus!
