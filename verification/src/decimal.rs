use vstd::prelude::*;

use crate::text::{digit_run, digit_val, is_digit, scan_digits};

verus! {

/// An exact decimal number: the value is `(-1)^neg * mant / 10^scale`.
///
/// The representation is canonical: zero is stored as `+0` with scale 0, and
/// a nonzero fraction never ends in a redundant zero digit. The literal
/// grammar accepts an optional sign, an integer part and a fractional part,
/// with at least one digit overall, at most eighteen fractional digits, and
/// a combined digit string whose value fits in 64 bits.
#[derive(Clone, Copy, Debug, PartialEq, Eq, Structural)]
pub struct Decimal {
    pub neg: bool,
    pub mant: u64,
    pub scale: u32,
}

/// Canonical-form well-formedness of a `Decimal`.
pub open spec fn dec_wf(d: Decimal) -> bool {
    &&& (d.mant == 0 ==> !d.neg && d.scale == 0)
    &&& (d.scale > 0 ==> d.mant % 10 != 0)
    &&& d.scale <= 18
}

/// The signed mantissa.
pub open spec fn dec_num(d: Decimal) -> int {
    if d.neg {
        -(d.mant as int)
    } else {
        d.mant as int
    }
}

pub open spec fn pow10(k: nat) -> nat
    decreases k,
{
    if k == 0 {
        1
    } else {
        10 * pow10((k - 1) as nat)
    }
}

/// `a <= b` as rational numbers.
pub open spec fn dec_le(a: Decimal, b: Decimal) -> bool {
    dec_num(a) * pow10(b.scale as nat) <= dec_num(b) * pow10(a.scale as nat)
}

/// The value of the digit characters of `s` in `[i, j)` read as a decimal
/// numeral.
pub open spec fn digits_int(s: Seq<char>, i: int, j: int) -> int
    decreases j - i,
{
    if j <= i {
        0
    } else {
        digits_int(s, i, j - 1) * 10 + digit_val(s[j - 1])
    }
}

/// Reduction of a parsed numeral to canonical form: trailing zero digits of
/// the fraction are dropped, and zero forgets sign and scale.
pub open spec fn canon(neg: bool, m: nat, sc: nat) -> Decimal
    decreases sc,
{
    if sc > 0 && m % 10 == 0 {
        canon(neg, m / 10, (sc - 1) as nat)
    } else if m == 0 {
        Decimal { neg: false, mant: 0, scale: 0 }
    } else {
        Decimal { neg, mant: m as u64, scale: sc as u32 }
    }
}

/// The decimal-literal grammar: `[+|-] digits [ . digits ]`, at least one
/// digit in all, no surrounding characters, at most eighteen fractional
/// digits, and a digit string that fits in 64 bits.
pub open spec fn spec_parse_decimal(s: Seq<char>) -> Option<Decimal> {
    let i0: int = if s.len() > 0 && (s[0] == '+' || s[0] == '-') {
        1
    } else {
        0
    };
    let neg = s.len() > 0 && s[0] == '-';
    let d1 = digit_run(s, i0) as int;
    let ip_end = i0 + d1;
    if ip_end == s.len() {
        if d1 == 0 {
            None
        } else if digits_int(s, i0, ip_end) > u64::MAX {
            None
        } else {
            Some(canon(neg, digits_int(s, i0, ip_end) as nat, 0))
        }
    } else if s[ip_end] == '.' {
        let f0 = ip_end + 1;
        let d2 = digit_run(s, f0) as int;
        if f0 + d2 != s.len() {
            None
        } else if d1 + d2 == 0 {
            None
        } else if d2 > 18 {
            None
        } else {
            let m = digits_int(s, i0, ip_end) * pow10(d2 as nat) + digits_int(s, f0, f0 + d2);
            if m > u64::MAX {
                None
            } else {
                Some(canon(neg, m as nat, d2 as nat))
            }
        }
    } else {
        None
    }
}

// ---------------------------------------------------------------------------
// Lemmas
// ---------------------------------------------------------------------------

pub proof fn lemma_digit_run_chars(s: Seq<char>, i: int)
    ensures
        forall|k: int| i <= k < i + digit_run(s, i) ==> is_digit(s[k]),
    decreases s.len() - i,
{
    if !(i < 0 || i >= s.len() || !is_digit(s[i])) {
        lemma_digit_run_chars(s, i + 1);
    }
}

pub proof fn lemma_digits_int_nonneg(s: Seq<char>, i: int, j: int)
    requires
        forall|k: int| i <= k < j ==> is_digit(s[k]),
    ensures
        digits_int(s, i, j) >= 0,
    decreases j - i,
{
    if j > i {
        lemma_digits_int_nonneg(s, i, j - 1);
    }
}

/// Extending a digit range to the right cannot shrink its value.
pub proof fn lemma_digits_int_mono(s: Seq<char>, i: int, j1: int, j2: int)
    requires
        i <= j1 <= j2,
        forall|k: int| i <= k < j2 ==> is_digit(s[k]),
    ensures
        digits_int(s, i, j1) <= digits_int(s, i, j2),
    decreases j2 - j1,
{
    if j1 < j2 {
        lemma_digits_int_mono(s, i, j1, j2 - 1);
        lemma_digits_int_nonneg(s, i, j2 - 1);
    }
}

pub proof fn lemma_pow10_pos(k: nat)
    ensures
        pow10(k) >= 1,
    decreases k,
{
    if k > 0 {
        lemma_pow10_pos((k - 1) as nat);
    }
}

pub proof fn lemma_pow10_mono(a: nat, b: nat)
    requires
        a <= b,
    ensures
        pow10(a) <= pow10(b),
    decreases b,
{
    if a < b {
        lemma_pow10_mono(a, (b - 1) as nat);
    }
}

pub proof fn lemma_pow10_18()
    ensures
        pow10(18) == 1_000_000_000_000_000_000,
{
    reveal_with_fuel(pow10, 19);
}

/// The canonical form is well formed.
pub proof fn lemma_canon_wf(neg: bool, m: nat, sc: nat)
    requires
        m <= u64::MAX,
        sc <= 18,
    ensures
        dec_wf(canon(neg, m, sc)),
    decreases sc,
{
    if sc > 0 && m % 10 == 0 {
        lemma_canon_wf(neg, m / 10, (sc - 1) as nat);
    }
}

/// A parsed decimal is well formed.
pub proof fn lemma_parse_decimal_wf(s: Seq<char>)
    ensures
        match spec_parse_decimal(s) {
            Some(d) => dec_wf(d),
            None => true,
        },
{
    let i0: int = if s.len() > 0 && (s[0] == '+' || s[0] == '-') {
        1
    } else {
        0
    };
    let neg = s.len() > 0 && s[0] == '-';
    let d1 = digit_run(s, i0) as int;
    let ip_end = i0 + d1;
    lemma_digit_run_chars(s, i0);
    if ip_end == s.len() {
        if d1 > 0 && digits_int(s, i0, ip_end) <= u64::MAX {
            lemma_digits_int_nonneg(s, i0, ip_end);
            lemma_canon_wf(neg, digits_int(s, i0, ip_end) as nat, 0);
        }
    } else if s[ip_end] == '.' {
        let f0 = ip_end + 1;
        let d2 = digit_run(s, f0) as int;
        lemma_digit_run_chars(s, f0);
        if f0 + d2 == s.len() && d1 + d2 > 0 && d2 <= 18 {
            let m = digits_int(s, i0, ip_end) * pow10(d2 as nat) + digits_int(s, f0, f0 + d2);
            if m <= u64::MAX {
                lemma_digits_int_nonneg(s, i0, ip_end);
                lemma_digits_int_nonneg(s, f0, f0 + d2);
                assert(digits_int(s, i0, ip_end) * pow10(d2 as nat) >= 0) by (nonlinear_arith)
                    requires
                        digits_int(s, i0, ip_end) >= 0,
                        pow10(d2 as nat) >= 0,
                ;
                lemma_canon_wf(neg, m as nat, d2 as nat);
            }
        }
    }
}

// ---------------------------------------------------------------------------
// Executable parsing and comparison
// ---------------------------------------------------------------------------

/// The value of a run of digit characters, or `None` when it exceeds 64 bits.
pub(crate) fn digits_value(s: &str, n: usize, i: usize, j: usize) -> (r: Option<u64>)
    requires
        n == s@.len(),
        i <= j <= n,
        forall|k: int| i <= k < j ==> is_digit(s@[k]),
    ensures
        match r {
            Some(v) => v as int == digits_int(s@, i as int, j as int),
            None => digits_int(s@, i as int, j as int) > u64::MAX,
        },
{
    let mut acc: u64 = 0;
    let mut k = i;
    while k < j
        invariant
            i <= k <= j <= n,
            n == s@.len(),
            forall|q: int| i <= q < j ==> is_digit(s@[q]),
            acc as int == digits_int(s@, i as int, k as int),
        decreases j - k,
    {
        let c = s.get_char(k);
        let dv = (c as u32) - 48;
        let wide = (acc as u128) * 10 + (dv as u128);
        if wide > u64::MAX as u128 {
            proof {
                lemma_digits_int_mono(s@, i as int, k as int + 1, j as int);
            }
            return None;
        }
        acc = wide as u64;
        k = k + 1;
    }
    Some(acc)
}

fn pow10_u64(k: u32) -> (r: u64)
    requires
        k <= 18,
    ensures
        r as int == pow10(k as nat),
{
    let mut r: u64 = 1;
    let mut c: u32 = 0;
    while c < k
        invariant
            c <= k <= 18,
            r as int == pow10(c as nat),
        decreases k - c,
    {
        proof {
            lemma_pow10_mono((c + 1) as nat, 18);
            lemma_pow10_18();
        }
        r = r * 10;
        c = c + 1;
    }
    r
}

fn canonize(neg: bool, m: u64, sc: u32) -> (d: Decimal)
    ensures
        d == canon(neg, m as nat, sc as nat),
{
    let mut m = m;
    let mut sc = sc;
    let ghost m0 = m as nat;
    let ghost sc0 = sc as nat;
    let ghost neg0 = neg;
    while sc > 0 && m % 10 == 0
        invariant
            canon(neg, m0, sc0) == canon(neg, m as nat, sc as nat),
        decreases sc,
    {
        m = m / 10;
        sc = sc - 1;
    }
    if m == 0 {
        Decimal { neg: false, mant: 0, scale: 0 }
    } else {
        Decimal { neg, mant: m, scale: sc }
    }
}

/// Parses a decimal literal; returns `None` when the text is outside the
/// grammar.
pub fn parse_decimal(s: &str) -> (r: Option<Decimal>)
    ensures
        r == spec_parse_decimal(s@),
        match r {
            Some(d) => dec_wf(d),
            None => true,
        },
{
    proof {
        lemma_parse_decimal_wf(s@);
    }
    let n = s.unicode_len();
    let mut i0: usize = 0;
    let mut neg = false;
    if n > 0 {
        let c0 = s.get_char(0);
        if c0 == '+' || c0 == '-' {
            i0 = 1;
            neg = c0 == '-';
        }
    }
    let ip_end = scan_digits(s, n, i0);
    let d1 = ip_end - i0;
    proof {
        lemma_digit_run_chars(s@, i0 as int);
    }
    if ip_end == n {
        if d1 == 0 {
            return None;
        }
        match digits_value(s, n, i0, ip_end) {
            Some(v) => Some(canonize(neg, v, 0)),
            None => None,
        }
    } else if s.get_char(ip_end) == '.' {
        let f0 = ip_end + 1;
        let f_end = scan_digits(s, n, f0);
        let d2 = f_end - f0;
        proof {
            lemma_digit_run_chars(s@, f0 as int);
        }
        if f_end != n {
            return None;
        }
        if d1 == 0 && d2 == 0 {
            return None;
        }
        if d2 > 18 {
            return None;
        }
        let a = match digits_value(s, n, i0, ip_end) {
            Some(a) => a,
            None => {
                proof {
                    lemma_int_part_bounds(s@, i0 as int, ip_end as int, f0 as int, (f0 + d2) as int, d2 as nat);
                }
                return None;
            },
        };
        let b = match digits_value(s, n, f0, f_end) {
            Some(b) => b,
            None => {
                proof {
                    lemma_frac_part_bounds(s@, i0 as int, ip_end as int, f0 as int, (f0 + d2) as int, d2 as nat);
                }
                return None;
            },
        };
        let p = pow10_u64(d2 as u32);
        proof {
            lemma_pow10_mono(d2 as nat, 18);
            lemma_pow10_18();
            assert((a as u128) * (p as u128) <= (u64::MAX as u128) * 1_000_000_000_000_000_000)
                by (nonlinear_arith)
                requires
                    a <= u64::MAX,
                    0 <= (p as int) <= 1_000_000_000_000_000_000,
            ;
        }
        let wide = (a as u128) * (p as u128) + (b as u128);
        if wide > u64::MAX as u128 {
            return None;
        }
        Some(canonize(neg, wide as u64, d2 as u32))
    } else {
        None
    }
}

/// When the integer part alone exceeds 64 bits, so does the whole numeral.
proof fn lemma_int_part_bounds(s: Seq<char>, i0: int, ip_end: int, f0: int, f_end: int, d2: nat)
    requires
        i0 <= ip_end,
        f0 <= f_end,
        digits_int(s, i0, ip_end) > u64::MAX,
        forall|k: int| i0 <= k < ip_end ==> is_digit(s[k]),
        forall|k: int| f0 <= k < f_end ==> is_digit(s[k]),
    ensures
        digits_int(s, i0, ip_end) * pow10(d2) + digits_int(s, f0, f_end) > u64::MAX,
{
    lemma_digits_int_nonneg(s, f0, f_end);
    lemma_pow10_pos(d2);
    let a = digits_int(s, i0, ip_end);
    assert(a * pow10(d2) >= a) by (nonlinear_arith)
        requires
            a >= 0,
            pow10(d2) >= 1,
    ;
}

/// When the fractional part alone exceeds 64 bits, so does the whole numeral.
proof fn lemma_frac_part_bounds(s: Seq<char>, i0: int, ip_end: int, f0: int, f_end: int, d2: nat)
    requires
        i0 <= ip_end,
        f0 <= f_end,
        digits_int(s, f0, f_end) > u64::MAX,
        forall|k: int| i0 <= k < ip_end ==> is_digit(s[k]),
    ensures
        digits_int(s, i0, ip_end) * pow10(d2) + digits_int(s, f0, f_end) > u64::MAX,
{
    lemma_digits_int_nonneg(s, i0, ip_end);
    lemma_pow10_pos(d2);
    let a = digits_int(s, i0, ip_end);
    assert(a * pow10(d2) >= 0) by (nonlinear_arith)
        requires
            a >= 0,
            pow10(d2) >= 0,
    ;
}

/// `a <= b` on well-formed decimals, decided exactly.
pub fn dec_le_exec(a: &Decimal, b: &Decimal) -> (r: bool)
    requires
        dec_wf(*a),
        dec_wf(*b),
    ensures
        r == dec_le(*a, *b),
{
    proof {
        lemma_pow10_mono(a.scale as nat, 18);
        lemma_pow10_mono(b.scale as nat, 18);
        lemma_pow10_18();
    }
    let pa = pow10_u64(a.scale);
    let pb = pow10_u64(b.scale);
    proof {
        assert((a.mant as u128) * (pb as u128) <= (u64::MAX as u128) * 1_000_000_000_000_000_000
            && (b.mant as u128) * (pa as u128) <= (u64::MAX as u128) * 1_000_000_000_000_000_000)
            by (nonlinear_arith)
            requires
                a.mant <= u64::MAX,
                b.mant <= u64::MAX,
                0 <= (pa as int) <= 1_000_000_000_000_000_000,
                0 <= (pb as int) <= 1_000_000_000_000_000_000,
        ;
    }
    let left = (a.mant as u128) * (pb as u128);
    let right = (b.mant as u128) * (pa as u128);
    if a.neg && !b.neg {
        proof {
            lemma_signs(*a, *b);
        }
        true
    } else if !a.neg && b.neg {
        proof {
            lemma_signs(*b, *a);
        }
        false
    } else if !a.neg {
        proof {
            assert(left == dec_num(*a) * pow10(b.scale as nat) && right == dec_num(*b) * pow10(
                a.scale as nat,
            ));
        }
        left <= right
    } else {
        proof {
            assert(left == -(dec_num(*a) * pow10(b.scale as nat)) && right == -(dec_num(*b)
                * pow10(a.scale as nat))) by {
                assert(left == (a.mant as int) * (pb as int) && right == (b.mant as int) * (
                pa as int));
                assert(-((-(a.mant as int)) * (pb as int)) == (a.mant as int) * (pb as int))
                    by (nonlinear_arith);
                assert(-((-(b.mant as int)) * (pa as int)) == (b.mant as int) * (pa as int))
                    by (nonlinear_arith);
            }
        }
        right <= left
    }
}

/// A negative well-formed decimal is below a non-negative one.
proof fn lemma_signs(a: Decimal, b: Decimal)
    requires
        dec_wf(a),
        dec_wf(b),
        a.neg,
        !b.neg,
    ensures
        dec_le(a, b),
        !dec_le(b, a),
{
    assert(dec_num(a) < 0);
    assert(dec_num(b) >= 0);
    lemma_pow10_pos(a.scale as nat);
    lemma_pow10_pos(b.scale as nat);
    assert(dec_num(a) * pow10(b.scale as nat) < 0) by (nonlinear_arith)
        requires
            dec_num(a) < 0,
            pow10(b.scale as nat) >= 1,
    ;
    assert(dec_num(b) * pow10(a.scale as nat) >= 0) by (nonlinear_arith)
        requires
            dec_num(b) >= 0,
            pow10(a.scale as nat) >= 1,
    ;
}

} // verus!
