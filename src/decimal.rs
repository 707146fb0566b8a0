//! Decimal numbers as written in rule values, and their exact comparison
//! with integers.
use vstd::prelude::*;

use crate::text::{digits_value, integer_of};

verus! {

/// Ten to the power `k`.
pub open spec fn pow10(k: nat) -> int
    decreases k,
{
    if k == 0 {
        1
    } else {
        10 * pow10((k - 1) as nat)
    }
}

/// Whether every character of `d` is a decimal digit (`d` may be empty).
pub open spec fn are_digits(d: Seq<char>) -> bool {
    forall|i: int| 0 <= i < d.len() ==> '0' <= #[trigger] d[i] && d[i] <= '9'
}

proof fn lemma_pow10_mono(j: nat, k: nat)
    requires
        j <= k,
    ensures
        1 <= pow10(j) <= pow10(k),
    decreases k,
{
    if k > j {
        lemma_pow10_mono(j, (k - 1) as nat);
    } else if k > 0 {
        lemma_pow10_mono(0, (k - 1) as nat);
    }
}

proof fn lemma_pow10_large(k: nat)
    requires
        k >= 39,
    ensures
        pow10(k) > u128::MAX,
{
    reveal_with_fuel(pow10, 40);
    assert(pow10(39) == 1_000_000_000_000_000_000_000_000_000_000_000_000_000);
    lemma_pow10_mono(39, k);
}

proof fn lemma_digits_concat(x: Seq<char>, y: Seq<char>)
    ensures
        digits_value(x + y) == digits_value(x) * pow10(y.len()) + digits_value(y),
    decreases y.len(),
{
    if y.len() == 0 {
        assert(x + y =~= x);
    } else {
        let y1 = y.drop_last();
        assert((x + y).drop_last() =~= x + y1);
        assert((x + y).last() == y.last());
        lemma_digits_concat(x, y1);
        let a = digits_value(x);
        let p = pow10(y1.len());
        let b = digits_value(y1);
        let d = y.last() as int - '0' as int;
        assert((a * p + b) * 10 + d == a * (10 * p) + (b * 10 + d)) by (nonlinear_arith);
    }
}

proof fn lemma_digits_bounds(y: Seq<char>)
    requires
        are_digits(y),
    ensures
        0 <= digits_value(y) < pow10(y.len()),
        digits_value(y) == 0 <==> forall|i: int| 0 <= i < y.len() ==> #[trigger] y[i] == '0',
    decreases y.len(),
{
    if y.len() > 0 {
        let y1 = y.drop_last();
        assert(are_digits(y1)) by {
            assert forall|i: int| 0 <= i < y1.len() implies '0' <= #[trigger] y1[i] && y1[i] <= '9' by {
                assert(y1[i] == y[i]);
            }
        }
        lemma_digits_bounds(y1);
        assert(y[y.len() - 1] == y.last());
        if digits_value(y) == 0 {
            assert forall|i: int| 0 <= i < y.len() implies #[trigger] y[i] == '0' by {
                if i < y.len() - 1 {
                    assert(y1[i] == y[i]);
                }
            }
        }
        if forall|i: int| 0 <= i < y.len() ==> #[trigger] y[i] == '0' {
            assert forall|i: int| 0 <= i < y1.len() implies #[trigger] y1[i] == '0' by {
                assert(y1[i] == y[i]);
            }
        }
    }
}

/// The sign of `x`: -1, 0 or 1.
pub open spec fn sign_of(x: int) -> int {
    if x < 0 {
        -1
    } else if x == 0 {
        0
    } else {
        1
    }
}

/// How `n` compares with `m * 10^e`: -1 below, 0 equal, 1 above.
pub open spec fn compare_decimal(n: int, m: int, e: int) -> int {
    if e >= 0 {
        sign_of(n - m * pow10(e as nat))
    } else {
        sign_of(n * pow10((-e) as nat) - m)
    }
}

/// The value of the digits `d[lo..hi]`, or `None` where it exceeds `u128`.
fn digits_u128(d: &Vec<char>, lo: usize, hi: usize) -> (r: Option<u128>)
    requires
        are_digits(d@),
        lo <= hi <= d@.len(),
    ensures
        match r {
            Some(v) => v == digits_value(d@.subrange(lo as int, hi as int)),
            None => digits_value(d@.subrange(lo as int, hi as int)) > u128::MAX,
        },
{
    let mut acc: u128 = 0;
    let mut i: usize = lo;
    assert(d@.subrange(lo as int, lo as int) =~= Seq::<char>::empty());
    while i < hi
        invariant
            are_digits(d@),
            lo <= i <= hi <= d@.len(),
            acc == digits_value(d@.subrange(lo as int, i as int)),
        decreases hi - i,
    {
        let ghost prefix = d@.subrange(lo as int, i as int);
        let ghost next = d@.subrange(lo as int, i + 1);
        assert(next.drop_last() =~= prefix);
        assert(next.last() == d@[i as int]);
        let c = d[i];
        assert('0' <= c && c <= '9');
        let digit = (c as u32 - '0' as u32) as u128;
        if acc > (u128::MAX - digit) / 10 {
            proof {
                assert(digits_value(next) > u128::MAX) by (nonlinear_arith)
                    requires
                        digits_value(next) == acc * 10 + digit,
                        acc > (u128::MAX - digit) / 10,
                        0 <= digit <= 9,
                ;
                lemma_digits_bounds(d@.subrange(i + 1, hi as int));
                lemma_digits_concat(next, d@.subrange(i + 1, hi as int));
                assert(next + d@.subrange(i + 1, hi as int) =~= d@.subrange(lo as int, hi as int));
                lemma_pow10_mono(0, (hi - i - 1) as nat);
                let v = digits_value(next);
                let p = pow10((hi - i - 1) as nat);
                assert(v * p >= v) by (nonlinear_arith)
                    requires
                        v >= 0,
                        p >= 1,
                ;
            }
            return None;
        }
        acc = acc * 10 + digit;
        i += 1;
    }
    Some(acc)
}

/// Whether the digits `d[lo..hi]` have a value other than zero.
fn digits_nonzero(d: &Vec<char>, lo: usize, hi: usize) -> (r: bool)
    requires
        are_digits(d@),
        lo <= hi <= d@.len(),
    ensures
        r == (digits_value(d@.subrange(lo as int, hi as int)) != 0),
{
    let ghost sub = d@.subrange(lo as int, hi as int);
    assert(are_digits(sub)) by {
        assert forall|i: int| 0 <= i < sub.len() implies '0' <= #[trigger] sub[i] && sub[i] <= '9' by {
            assert(sub[i] == d@[lo + i]);
        }
    }
    proof {
        lemma_digits_bounds(sub);
    }
    let mut i: usize = lo;
    while i < hi
        invariant
            lo <= i <= hi <= d@.len(),
            sub == d@.subrange(lo as int, hi as int),
            are_digits(sub),
            forall|j: int| 0 <= j < i - lo ==> #[trigger] sub[j] == '0',
        decreases hi - i,
    {
        assert(sub[i - lo] == d@[i as int]);
        if d[i] != '0' {
            proof {
                lemma_digits_bounds(sub);
                assert(sub[i - lo] != '0');
            }
            return true;
        }
        i += 1;
    }
    false
}

/// How `a` compares with `value(d) * 10^e` for `e >= 0`, where `e_sat` is
/// `e` or, from 41 on, a lower bound of it.
fn compare_scaled_up(a: u128, d: &Vec<char>, e_sat: i128, Ghost(e): Ghost<int>) -> (r: i8)
    requires
        are_digits(d@),
        0 <= e_sat,
        e_sat == e || (e_sat >= 41 && e >= e_sat),
    ensures
        r == compare_decimal(a as int, digits_value(d@), e),
{
    let len = d.len();
    let ghost s = digits_value(d@);
    assert(d@.subrange(0, len as int) =~= d@);
    proof {
        lemma_digits_bounds(d@);
    }
    let ghost p = pow10(e as nat);
    proof {
        lemma_pow10_mono(0, e as nat);
    }
    match digits_u128(d, 0, len) {
        None => {
            assert(a - s * p < 0) by (nonlinear_arith)
                requires
                    s > u128::MAX,
                    a <= u128::MAX,
                    p >= 1,
            ;
            -1
        },
        Some(v) => {
            if v == 0 {
                assert(s * p == 0) by (nonlinear_arith)
                    requires
                        s == 0,
                ;
                return if a == 0 {
                    0
                } else {
                    1
                };
            }
            if v > a {
                assert(a - s * p < 0) by (nonlinear_arith)
                    requires
                        s > a,
                        p >= 1,
                ;
                return -1;
            }
            let mut acc: u128 = v;
            let mut k: i128 = 0;
            assert(pow10(0) == 1);
            assert(d@.subrange(0, len as int) == d@);
            assert(v == s);
            assert(acc == s * pow10(0nat));
            while k < e_sat
                invariant
                    0 <= k <= e_sat,
                    e_sat <= e,
                    e >= 0,
                    s == digits_value(d@),
                    s == v,
                    v >= 1,
                    p == pow10(e as nat),
                    acc == s * pow10(k as nat),
                    acc <= a,
                decreases e_sat - k,
            {
                proof {
                    lemma_pow10_mono((k + 1) as nat, e as nat);
                }
                let ghost q = pow10((k + 1) as nat);
                assert(s * q == acc * 10) by (nonlinear_arith)
                    requires
                        q == 10 * pow10(k as nat),
                        acc == s * pow10(k as nat),
                ;
                if acc > u128::MAX / 10 {
                    assert(a - s * p < 0) by (nonlinear_arith)
                        requires
                            s * q == acc * 10,
                            acc > u128::MAX / 10,
                            a <= u128::MAX,
                            q <= p,
                            s >= 1,
                    ;
                    return -1;
                }
                acc = acc * 10;
                k += 1;
                if acc > a {
                    assert(a - s * p < 0) by (nonlinear_arith)
                        requires
                            s * q == acc,
                            acc > a,
                            q <= p,
                            s >= 1,
                    ;
                    return -1;
                }
            }
            proof {
                if e_sat != e {
                    lemma_pow10_large(e_sat as nat);
                    let q = pow10(e_sat as nat);
                    assert(s * q >= q) by (nonlinear_arith)
                        requires
                            s >= 1,
                            q >= 1,
                    ;
                }
            }
            if a < acc {
                -1
            } else if a == acc {
                0
            } else {
                1
            }
        },
    }
}

/// How `a` compares with `value(d) * 10^e` for `e < 0`, where `e_sat` is
/// `e` or, once `-e_sat` reaches the number of digits, an upper bound of it.
fn compare_scaled_down(a: u128, d: &Vec<char>, e_sat: i128, Ghost(e): Ghost<int>) -> (r: i8)
    requires
        are_digits(d@),
        i128::MIN < e_sat < 0,
        e_sat == e || (-e_sat >= d@.len() && e <= e_sat),
    ensures
        r == compare_decimal(a as int, digits_value(d@), e),
{
    let len = d.len();
    let ghost s = digits_value(d@);
    assert(d@.subrange(0, len as int) =~= d@);
    proof {
        lemma_digits_bounds(d@);
    }
    let f = -e_sat;
    if f >= len as i128 {
        let ghost p = pow10((-e) as nat);
        proof {
            lemma_pow10_mono(len as nat, (-e) as nat);
        }
        if a >= 1 {
            assert(a * p - s > 0) by (nonlinear_arith)
                requires
                    a >= 1,
                    p > s,
                    s >= 0,
            ;
            1
        } else {
            assert(a * p == 0) by (nonlinear_arith)
                requires
                    a == 0,
            ;
            if digits_nonzero(d, 0, len) {
                -1
            } else {
                0
            }
        }
    } else {
        let h = len - f as usize;
        let ghost hi_part = d@.subrange(0, h as int);
        let ghost lo_part = d@.subrange(h as int, len as int);
        let ghost p = pow10((-e) as nat);
        assert(hi_part + lo_part =~= d@);
        proof {
            lemma_digits_concat(hi_part, lo_part);
            assert(are_digits(lo_part)) by {
                assert forall|i: int| 0 <= i < lo_part.len() implies '0' <= #[trigger] lo_part[i]
                    && lo_part[i] <= '9' by {
                    assert(lo_part[i] == d@[h + i]);
                }
            }
            lemma_digits_bounds(lo_part);
            assert(are_digits(hi_part)) by {
                assert forall|i: int| 0 <= i < hi_part.len() implies '0' <= #[trigger] hi_part[i]
                    && hi_part[i] <= '9' by {
                    assert(hi_part[i] == d@[i]);
                }
            }
            lemma_digits_bounds(hi_part);
        }
        let ghost t = digits_value(lo_part);
        let ghost vh = digits_value(hi_part);
        assert(s == vh * p + t);
        match digits_u128(d, 0, h) {
            None => {
                assert(a * p - s < 0) by (nonlinear_arith)
                    requires
                        s == vh * p + t,
                        vh > a,
                        t >= 0,
                        p >= 1,
                ;
                -1
            },
            Some(v) => {
                if a < v {
                    assert(a * p - s < 0) by (nonlinear_arith)
                        requires
                            s == vh * p + t,
                            vh == v,
                            a < v,
                            t >= 0,
                            p >= 1,
                    ;
                    -1
                } else if a > v {
                    assert(a * p - s > 0) by (nonlinear_arith)
                        requires
                            s == vh * p + t,
                            vh == v,
                            a > v,
                            t < p,
                            t >= 0,
                            p >= 1,
                    ;
                    1
                } else if digits_nonzero(d, h, len) {
                    assert(a * p - s < 0) by (nonlinear_arith)
                        requires
                            s == vh * p + t,
                            vh == a,
                            t > 0,
                    ;
                    -1
                } else {
                    assert(a * p - s == 0) by (nonlinear_arith)
                        requires
                            s == vh * p + t,
                            vh == a,
                            t == 0,
                    ;
                    0
                }
            },
        }
    }
}

/// How `a` compares with `value(d) * 10^e`, where `e_sat` is `e` or, past
/// the range in which the answer can change, a bound on it.
fn compare_magnitude(a: u128, d: &Vec<char>, e_sat: i128, Ghost(e): Ghost<int>) -> (r: i8)
    requires
        are_digits(d@),
        e_sat > i128::MIN,
        e_sat == e || (e_sat >= 41 && e >= e_sat) || (e_sat < 0 && -e_sat >= d@.len() && e <= e_sat),
    ensures
        r == compare_decimal(a as int, digits_value(d@), e),
{
    let len = d.len();
    let ghost s = digits_value(d@);
    assert(d@.subrange(0, len as int) =~= d@);
    proof {
        lemma_digits_bounds(d@);
    }
    if e_sat >= 0 {
        compare_scaled_up(a, d, e_sat, Ghost(e))
    } else {
        compare_scaled_down(a, d, e_sat, Ghost(e))
    }
}

/// The first index from `i` on of an exponent mark, or the length.
pub open spec fn exp_index(s: Seq<char>, i: int) -> int
    decreases s.len() - i,
{
    if i >= s.len() {
        s.len() as int
    } else if s[i] == 'e' || s[i] == 'E' {
        i
    } else {
        exp_index(s, i + 1)
    }
}

/// The first index in `[i, end)` of a decimal point, or `end`.
pub open spec fn dot_index(s: Seq<char>, i: int, end: int) -> int
    decreases end - i,
{
    if i >= end {
        end
    } else if s[i] == '.' {
        i
    } else {
        dot_index(s, i + 1, end)
    }
}

/// The length of the leading sign of `s`, if any.
pub open spec fn sign_len(s: Seq<char>) -> int {
    if s.len() > 0 && (s[0] == '+' || s[0] == '-') {
        1
    } else {
        0
    }
}

/// The number that `s` writes in decimal, as `(m, e)` for `m * 10^e`: an
/// optional sign, digits with an optional decimal point (at least one digit
/// in all), and an optional exponent `e` or `E` with an optional sign.
pub open spec fn decimal_of(s: Seq<char>) -> Option<(int, int)> {
    let st = sign_len(s);
    let ep = exp_index(s, st);
    let dp = dot_index(s, st, ep);
    let ip = s.subrange(st, dp);
    let fr = if dp < ep {
        s.subrange(dp + 1, ep)
    } else {
        Seq::<char>::empty()
    };
    let ex = if ep < s.len() {
        integer_of(s.subrange(ep + 1, s.len() as int))
    } else {
        Some(0int)
    };
    if are_digits(ip) && are_digits(fr) && ip.len() + fr.len() > 0 && ex is Some {
        let mag = digits_value(ip + fr);
        Some((if s.len() > 0 && s[0] == '-' { -mag } else { mag }, ex->Some_0 - fr.len()))
    } else {
        None
    }
}

proof fn lemma_exp_index_range(s: Seq<char>, i: int)
    requires
        0 <= i <= s.len(),
    ensures
        i <= exp_index(s, i) <= s.len(),
        exp_index(s, i) < s.len() ==> (s[exp_index(s, i)] == 'e' || s[exp_index(s, i)] == 'E'),
    decreases s.len() - i,
{
    if i < s.len() && !(s[i] == 'e' || s[i] == 'E') {
        lemma_exp_index_range(s, i + 1);
    }
}

proof fn lemma_dot_index_range(s: Seq<char>, i: int, end: int)
    requires
        0 <= i <= end <= s.len(),
    ensures
        i <= dot_index(s, i, end) <= end,
    decreases end - i,
{
    if i < end && s[i] != '.' {
        lemma_dot_index_range(s, i + 1, end);
    }
}

/// The characters of `s`.
fn chars_of(s: &str) -> (r: Vec<char>)
    ensures
        r@ == s@,
{
    let n = s.unicode_len();
    let mut out: Vec<char> = Vec::new();
    let mut i: usize = 0;
    while i < n
        invariant
            n == s@.len(),
            i <= n,
            out@ == s@.subrange(0, i as int),
        decreases n - i,
    {
        out.push(s.get_char(i));
        i += 1;
        assert(out@ =~= s@.subrange(0, i as int));
    }
    assert(s@.subrange(0, n as int) =~= s@);
    out
}

/// Copies `cs[lo..hi]` onto `out` if all of it are digits.
fn push_digits(cs: &Vec<char>, lo: usize, hi: usize, out: &mut Vec<char>) -> (ok: bool)
    requires
        lo <= hi <= cs@.len(),
        are_digits(old(out)@),
    ensures
        ok == are_digits(cs@.subrange(lo as int, hi as int)),
        ok ==> final(out)@ == old(out)@ + cs@.subrange(lo as int, hi as int),
        ok ==> are_digits(final(out)@),
{
    let ghost start = out@;
    let mut i: usize = lo;
    while i < hi
        invariant
            lo <= i <= hi <= cs@.len(),
            out@ == start + cs@.subrange(lo as int, i as int),
            are_digits(out@),
            are_digits(cs@.subrange(lo as int, i as int)),
        decreases hi - i,
    {
        let c = cs[i];
        if !('0' <= c && c <= '9') {
            assert(cs@.subrange(lo as int, hi as int)[i - lo] == c);
            return false;
        }
        out.push(c);
        i += 1;
        assert(out@ =~= start + cs@.subrange(lo as int, i as int));
        assert(are_digits(cs@.subrange(lo as int, i as int))) by {
            let sub = cs@.subrange(lo as int, i as int);
            assert forall|j: int| 0 <= j < sub.len() implies '0' <= #[trigger] sub[j] && sub[j] <= '9' by {
                assert(sub[j] == cs@[lo + j]);
            }
        }
    }
    true
}

/// The value of the exponent digits `cs[lo..hi]`, capped at `cap`; `None`
/// where they are no run of digits.
fn capped_digits(cs: &Vec<char>, lo: usize, hi: usize, cap: i128) -> (r: Option<i128>)
    requires
        lo <= hi <= cs@.len(),
        0 <= cap <= 0x1_0000_0000_0000_0000_0000,
    ensures
        match r {
            Some(v) => {
                &&& crate::text::is_digits(cs@.subrange(lo as int, hi as int))
                &&& v == (if digits_value(cs@.subrange(lo as int, hi as int)) < cap {
                    digits_value(cs@.subrange(lo as int, hi as int))
                } else {
                    cap as int
                })
            },
            None => !crate::text::is_digits(cs@.subrange(lo as int, hi as int)),
        },
{
    if lo == hi {
        return None;
    }
    let mut acc: i128 = 0;
    let mut i: usize = lo;
    assert(cs@.subrange(lo as int, lo as int) =~= Seq::<char>::empty());
    while i < hi
        invariant
            lo <= i <= hi <= cs@.len(),
            0 <= cap <= 0x1_0000_0000_0000_0000_0000,
            are_digits(cs@.subrange(lo as int, i as int)),
            acc == (if digits_value(cs@.subrange(lo as int, i as int)) < cap {
                digits_value(cs@.subrange(lo as int, i as int))
            } else {
                cap as int
            }),
        decreases hi - i,
    {
        let c = cs[i];
        if !('0' <= c && c <= '9') {
            assert(cs@.subrange(lo as int, hi as int)[i - lo] == c);
            return None;
        }
        let ghost prev = cs@.subrange(lo as int, i as int);
        let ghost next = cs@.subrange(lo as int, i + 1);
        assert(next.drop_last() =~= prev);
        assert(next.last() == c);
        proof {
            lemma_digits_bounds(prev);
        }
        let digit = (c as u32 - '0' as u32) as i128;
        if acc < cap {
            acc = acc * 10 + digit;
            if acc > cap {
                acc = cap;
            }
        }
        i += 1;
        assert(are_digits(next)) by {
            assert forall|j: int| 0 <= j < next.len() implies '0' <= #[trigger] next[j] && next[j] <= '9' by {
                assert(next[j] == cs@[lo + j]);
            }
        }
    }
    assert(cs@.subrange(lo as int, hi as int).len() > 0);
    Some(acc)
}

/// A decimal number read from text: `±digits * 10^e`, where `e_sat` is `e`
/// or, past the range in which comparisons with `i128` values can change,
/// a bound on it.
struct ParsedDecimal {
    negative: bool,
    digits: Vec<char>,
    e_sat: i128,
    e: Ghost<int>,
}

impl ParsedDecimal {
    spec fn wf(&self) -> bool {
        &&& are_digits(self.digits@)
        &&& self.e_sat > i128::MIN
        &&& (self.e_sat == self.e@ || (self.e_sat >= 41 && self.e@ >= self.e_sat) || (self.e_sat < 0
            && -self.e_sat >= self.digits@.len() && self.e@ <= self.e_sat))
    }

    spec fn value(&self) -> (int, int) {
        (
            if self.negative {
                -digits_value(self.digits@)
            } else {
                digits_value(self.digits@)
            },
            self.e@,
        )
    }
}

/// Reads the decimal number that `reference` writes.
#[verifier::rlimit(60)]
fn parse_decimal(reference: &str) -> (r: Option<ParsedDecimal>)
    ensures
        match decimal_of(reference@) {
            Some(v) => r is Some && r->Some_0.wf() && r->Some_0.value() == v,
            None => r is None,
        },
{
    let ghost s = reference@;
    let cs = chars_of(reference);
    let len = cs.len();
    let st: usize = if len > 0 && (cs[0] == '+' || cs[0] == '-') {
        1
    } else {
        0
    };
    let negative = len > 0 && cs[0] == '-';
    assert(st == sign_len(s));
    let mut ep: usize = st;
    while ep < len && cs[ep] != 'e' && cs[ep] != 'E'
        invariant
            cs@ == s,
            len == s.len(),
            st <= ep <= len,
            exp_index(s, st as int) == exp_index(s, ep as int),
        decreases len - ep,
    {
        ep += 1;
    }
    let mut dp: usize = st;
    while dp < ep && cs[dp] != '.'
        invariant
            cs@ == s,
            len == s.len(),
            st <= dp <= ep <= len,
            exp_index(s, st as int) == ep,
            dot_index(s, st as int, ep as int) == dot_index(s, dp as int, ep as int),
        decreases ep - dp,
    {
        dp += 1;
    }
    let ghost ip = s.subrange(st as int, dp as int);
    let ghost fr = if dp < ep {
        s.subrange(dp + 1, ep as int)
    } else {
        Seq::<char>::empty()
    };
    let mut digits: Vec<char> = Vec::new();
    if !push_digits(&cs, st, dp, &mut digits) {
        return None;
    }
    let frac_len: usize = if dp < ep {
        if !push_digits(&cs, dp + 1, ep, &mut digits) {
            return None;
        }
        ep - dp - 1
    } else {
        assert(digits@ =~= Seq::<char>::empty() + ip);
        0
    };
    assert(digits@ =~= ip + fr);
    assert(fr.len() == frac_len);
    if digits.len() == 0 {
        return None;
    }
    // The exponent, capped where the comparison no longer depends on it.
    let cap: i128 = len as i128 + 41;
    let ghost ex: int;
    let exp_sat: i128 = if ep < len {
        let x_lo = ep + 1;
        let ghost x = s.subrange(x_lo as int, len as int);
        let (x_neg, d_lo) = if x_lo < len && cs[x_lo] == '-' {
            (true, x_lo + 1)
        } else if x_lo < len && cs[x_lo] == '+' {
            (false, x_lo + 1)
        } else {
            (false, x_lo)
        };
        let ghost dgt = s.subrange(d_lo as int, len as int);
        if d_lo > x_lo {
            assert(x.drop_first() =~= dgt);
        } else {
            assert(x =~= dgt);
        }
        match capped_digits(&cs, d_lo, len, cap) {
            None => {
                return None;
            },
            Some(v) => {
                proof {
                    ex = if x_neg {
                        -digits_value(dgt)
                    } else {
                        digits_value(dgt)
                    };
                    lemma_digits_bounds(dgt);
                }
                assert(integer_of(x) == Some(ex));
                if x_neg {
                    -v
                } else {
                    v
                }
            },
        }
    } else {
        proof {
            ex = 0;
        }
        0
    };
    let ghost e = ex - frac_len;
    let e_sat: i128 = exp_sat - frac_len as i128;
    let ghost mag = digits_value(digits@);
    assert(decimal_of(s) == Some(
        (
            if negative {
                -mag
            } else {
                mag
            },
            e,
        ),
    ));
    proof {
        lemma_exp_index_range(s, st as int);
    }
    Some(ParsedDecimal { negative, digits, e_sat, e: Ghost(e) })
}

/// How the integer `n` compares with the decimal number that `reference`
/// writes: -1 below, 0 equal, 1 above; `None` where `reference` writes no
/// decimal number.
pub fn compare_with_reference(n: i128, reference: &str) -> (r: Option<i8>)
    ensures
        match decimal_of(reference@) {
            Some((m, e)) => r is Some && r->Some_0 == compare_decimal(n as int, m, e),
            None => r is None,
        },
{
    match parse_decimal(reference) {
        None => None,
        Some(d) => Some(compare_signed(n, &d)),
    }
}

/// How the integer `n` compares with a parsed decimal number.
fn compare_signed(n: i128, d: &ParsedDecimal) -> (r: i8)
    requires
        d.wf(),
    ensures
        r == compare_decimal(n as int, d.value().0, d.value().1),
{
    let negative = d.negative;
    let digits = &d.digits;
    let ghost e = d.e@;
    let ghost mag = digits_value(digits@);
    let e_sat = d.e_sat;
    let a: u128 = if n >= 0 {
        n as u128
    } else {
        (-(n + 1)) as u128 + 1
    };
    let c = compare_magnitude(a, &digits, e_sat, Ghost(e));
    proof {
        lemma_digits_bounds(digits@);
    }
    assert(d.value() == (if negative { -mag } else { mag }, e));
    assert(c == compare_decimal(a as int, mag, e));
    if n >= 0 && !negative {
        assert(a == n);
        c
    } else if n < 0 && negative {
        proof {
            if e >= 0 {
                let p = pow10(e as nat);
                assert(n - (-mag) * p == -(a - mag * p)) by (nonlinear_arith)
                    requires
                        a == -n,
                ;
            } else {
                let p = pow10((-e) as nat);
                assert(n * p - (-mag) == -(a * p - mag)) by (nonlinear_arith)
                    requires
                        a == -n,
                ;
            }
        }
        assert(a == -n);
        assert(-c == compare_decimal(n as int, -mag, e));
        -c
    } else if n >= 0 {
        // The reference is negative or zero, the attribute is not negative.
        let zero = !digits_nonzero(&digits, 0, digits.len());
        assert(digits@.subrange(0, digits@.len() as int) =~= digits@);
        proof {
            if e >= 0 {
                let p = pow10(e as nat);
                lemma_pow10_mono(0, e as nat);
                assert(mag * p >= 0 && (mag == 0 ==> mag * p == 0) && (mag > 0 ==> mag * p > 0) && (-mag)
                    * p == -(mag * p)) by (nonlinear_arith)
                    requires
                        mag >= 0,
                        p >= 1,
                ;
            } else {
                let p = pow10((-e) as nat);
                lemma_pow10_mono(0, (-e) as nat);
                assert(n * p >= 0 && (n == 0 ==> n * p == 0) && (n > 0 ==> n * p > 0))
                    by (nonlinear_arith)
                    requires
                        n >= 0,
                        p >= 1,
                ;
            }
        }
        if n == 0 && zero {
            0
        } else {
            1
        }
    } else {
        // The attribute is negative, the reference is not.
        proof {
            if e >= 0 {
                let p = pow10(e as nat);
                lemma_pow10_mono(0, e as nat);
                assert(mag * p >= 0) by (nonlinear_arith)
                    requires
                        mag >= 0,
                        p >= 1,
                ;
            } else {
                let p = pow10((-e) as nat);
                lemma_pow10_mono(0, (-e) as nat);
                assert(n * p < 0) by (nonlinear_arith)
                    requires
                        n < 0,
                        p >= 1,
                ;
            }
        }
        -1
    }
}

} // verus!
