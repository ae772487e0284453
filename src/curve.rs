//! The two Newton solvers of the bonding curve: the invariant `D` of a set of
//! balances, and the balance of one asset that keeps a given `D`.
//!
//! Both work on any number of balances, in `u128` with every step checked.
use vstd::prelude::*;

use crate::{widen, A_PRECISION, NUMBER_OF_ITERATIONS_TO_CONVERGE};

verus! {

/// `x` is a value of `u128`.
pub open spec fn fits(x: int) -> bool {
    0 <= x <= u128::MAX
}

/// The value of an optional `u128` as a mathematical integer.
pub open spec fn lift(r: Option<u128>) -> Option<int> {
    match r {
        Some(v) => Some(v as int),
        None => None,
    }
}

/// Two successive estimates differ by at most one unit.
pub open spec fn close(x: int, y: int) -> bool {
    -1 <= x - y <= 1
}

/// The sum of the first `k` balances.
pub open spec fn sum_upto(s: Seq<u64>, k: nat) -> int
    decreases k,
{
    if k == 0 {
        0
    } else {
        sum_upto(s, (k - 1) as nat) + s[k - 1]
    }
}

/// The sum of all balances.
pub open spec fn total(s: Seq<u64>) -> int {
    sum_upto(s, s.len())
}

/// The product term `P` of the invariant after the first `k` balances:
/// starting from `d`, each balance `b` turns `P` into `P * d / (b * n)`.
pub open spec fn prod_upto(s: Seq<u64>, n: int, d: int, k: nat) -> Option<int>
    decreases k,
{
    if k == 0 {
        Some(d)
    } else {
        match prod_upto(s, n, d, (k - 1) as nat) {
            Some(p) => {
                let div = s[k - 1] * n;
                if fits(p * d) && div != 0 {
                    Some(p * d / div)
                } else {
                    None
                }
            },
            None => None,
        }
    }
}

/// One Newton step for `D`:
/// `(Ann*S/100 + P*n) * D / ((Ann-100)*D/100 + (n+1)*P)`,
/// or `None` where an intermediate value leaves `u128` or a divisor is zero.
pub open spec fn d_next(s: Seq<u64>, ann: int, sum: int, d: int) -> Option<int> {
    let n = s.len() as int;
    match prod_upto(s, n, d, s.len()) {
        Some(p) => {
            let scaled = (ann - 100) * d;
            let denom = scaled / 100 + (n + 1) * p;
            let numer = (ann * sum / 100 + p * n) * d;
            if fits(p * n) && fits((n + 1) * p) && ann >= 100 && fits(scaled) && fits(denom)
                && fits(ann * sum) && fits(ann * sum / 100 + p * n) && fits(numer) && denom != 0 {
                Some(numer / denom)
            } else {
                None
            }
        },
        None => None,
    }
}

/// At most `k` Newton steps for `D` from `d`, stopping at the first step
/// that moves by at most one unit.
pub open spec fn d_iterate(s: Seq<u64>, ann: int, sum: int, d: int, k: nat) -> Option<int>
    decreases k,
{
    if k == 0 {
        Some(d)
    } else {
        match d_next(s, ann, sum, d) {
            Some(next) => if close(next, d) {
                Some(next)
            } else {
                d_iterate(s, ann, sum, next, (k - 1) as nat)
            },
            None => None,
        }
    }
}

/// The invariant `D` of the balances `s` at amplification `a`, with
/// `Ann = a * n` for `n` balances, as the bounded Newton iteration computes it: zero for an empty pool, `None`
/// where a step fails or the result leaves `u64`.
pub open spec fn d_of(s: Seq<u64>, a: u64) -> Option<int> {
    let ann = a * s.len();
    if total(s) == 0 {
        Some(0)
    } else {
        match d_iterate(s, ann, total(s), total(s), NUMBER_OF_ITERATIONS_TO_CONVERGE as nat) {
            Some(d) => if 0 <= d <= u64::MAX {
                Some(d)
            } else {
                None
            },
            None => None,
        }
    }
}

/// Once a step of `prod_upto` fails, every later one does.
proof fn lemma_prod_none(s: Seq<u64>, n: int, d: int, j: nat, k: nat)
    requires
        j <= k,
        prod_upto(s, n, d, j) is None,
    ensures
        prod_upto(s, n, d, k) is None,
    decreases k - j,
{
    if j < k {
        lemma_prod_none(s, n, d, j, (k - 1) as nat);
    }
}

/// The product of two 64-bit values fits in `u128`.
proof fn lemma_word_product(b: int, n: int)
    requires
        0 <= b <= u64::MAX,
        0 <= n <= u64::MAX,
    ensures
        fits(b * n),
{
    assert(0 <= b * n <= u64::MAX * u64::MAX) by (nonlinear_arith)
        requires
            0 <= b <= u64::MAX,
            0 <= n <= u64::MAX,
    ;
}

/// The product term `P` of the invariant for the estimate `d`.
fn prod_term(balances: &[u64], n: u128, d: u128) -> (r: Option<u128>)
    requires
        n == balances@.len(),
    ensures
        lift(r) == prod_upto(balances@, n as int, d as int, balances@.len()),
{
    let mut p: u128 = d;
    let mut i: usize = 0;
    while i < balances.len()
        invariant
            0 <= i <= balances@.len(),
            n == balances@.len(),
            prod_upto(balances@, n as int, d as int, i as nat) == Some(p as int),
        decreases balances@.len() - i,
    {
        let b: u128 = balances[i] as u128;
        proof {
            lemma_word_product(b as int, n as int);
        }
        let div: u128 = b * n;
        let pd: u128 = match p.checked_mul(d) {
            Some(v) => v,
            None => {
                proof {
                    lemma_prod_none(balances@, n as int, d as int, (i + 1) as nat, balances@.len());
                }
                return None;
            },
        };
        if div == 0 {
            proof {
                lemma_prod_none(balances@, n as int, d as int, (i + 1) as nat, balances@.len());
            }
            return None;
        }
        p = pd / div;
        i = i + 1;
    }
    Some(p)
}

/// One Newton step for `D`.
fn d_step(balances: &[u64], n: u128, ann: u128, sum: u128, d: u128) -> (r: Option<u128>)
    requires
        n == balances@.len(),
        n <= u64::MAX,
    ensures
        lift(r) == d_next(balances@, ann as int, sum as int, d as int),
{
    let p: u128 = prod_term(balances, n, d)?;
    let t1: u128 = p.checked_mul(n)?;
    let t2: u128 = (n + 1).checked_mul(p)?;
    let t3: u128 = ann.checked_sub(A_PRECISION)?.checked_mul(d)?.checked_div(A_PRECISION)?.checked_add(
        t2,
    )?;
    let numer: u128 = ann.checked_mul(sum)?.checked_div(A_PRECISION)?.checked_add(t1)?.checked_mul(
        d,
    )?;
    numer.checked_div(t3)
}

/// The invariant `D` of `balances` at the (pre-scaled) amplification `a`,
/// by at most `NUMBER_OF_ITERATIONS_TO_CONVERGE` Newton steps from `D = sum`, stopping once a step moves
/// by at most one unit. An empty pool has `D = 0`. Fails where an
/// intermediate value leaves `u128`, a divisor is zero (a zero balance in a
/// non-empty pool), `a * n < 100`, or `D` does not fit in `u64`.
pub fn get_d(balances: &[u64], a: u64) -> (r: Option<u64>)
    ensures
        widen(r) == d_of(balances@, a),
        total(balances@) == 0 ==> r == Some(0u64),
{
    let n: u128 = balances.len() as u128;
    proof {
        lemma_word_product(a as int, n as int);
    }
    let ann: u128 = a as u128 * n;
    let mut sum: u128 = 0;
    let mut i: usize = 0;
    while i < balances.len()
        invariant
            0 <= i <= balances@.len(),
            n == balances@.len(),
            sum == sum_upto(balances@, i as nat),
            sum <= i * u64::MAX,
        decreases balances@.len() - i,
    {
        assert((i + 1) * u64::MAX <= u128::MAX) by (nonlinear_arith)
            requires
                i < usize::MAX,
                usize::MAX <= u64::MAX,
        ;
        sum = sum + balances[i] as u128;
        i = i + 1;
    }
    if sum == 0 {
        return Some(0);
    }
    let ghost s = balances@;
    let ghost target = d_iterate(s, ann as int, sum as int, sum as int, NUMBER_OF_ITERATIONS_TO_CONVERGE as nat);
    let mut d: u128 = sum;
    let mut k: u32 = 0;
    while k < NUMBER_OF_ITERATIONS_TO_CONVERGE
        invariant_except_break
            k <= NUMBER_OF_ITERATIONS_TO_CONVERGE,
            d_iterate(s, ann as int, sum as int, d as int, (NUMBER_OF_ITERATIONS_TO_CONVERGE - k) as nat) == target,
        invariant
            s == balances@,
            n == balances@.len(),
            n <= u64::MAX,
            sum == total(s),
            sum != 0,
            ann == a * s.len(),
            target == d_iterate(s, ann as int, sum as int, sum as int, NUMBER_OF_ITERATIONS_TO_CONVERGE as nat),
        ensures
            target == Some(d as int),
        decreases NUMBER_OF_ITERATIONS_TO_CONVERGE - k,
    {
        let next: u128 = match d_step(balances, n, ann, sum, d) {
            Some(v) => v,
            None => return None,
        };
        if next > d {
            if next - d <= 1 {
                d = next;
                break;
            }
        } else if d - next <= 1 {
            d = next;
            break;
        }
        d = next;
        k = k + 1;
    }
    if d > u64::MAX as u128 {
        None
    } else {
        Some(d as u64)
    }
}


/// The sum of the first `k` balances, leaving out the one at `idx`.
pub open spec fn sum_except(s: Seq<u64>, idx: int, k: nat) -> int
    decreases k,
{
    if k == 0 {
        0
    } else if k - 1 == idx {
        sum_except(s, idx, (k - 1) as nat)
    } else {
        sum_except(s, idx, (k - 1) as nat) + s[k - 1]
    }
}

/// The term `c` of the balance solver after the first `k` balances, leaving
/// out the one at `idx`: starting from `d`, each balance `b` turns `c` into
/// `c * d / (b * n)`.
pub open spec fn c_upto(s: Seq<u64>, idx: int, n: int, d: int, k: nat) -> Option<int>
    decreases k,
{
    if k == 0 {
        Some(d)
    } else {
        match c_upto(s, idx, n, d, (k - 1) as nat) {
            Some(c) => if k - 1 == idx {
                Some(c)
            } else {
                let div = s[k - 1] * n;
                if fits(c * d) && div != 0 {
                    Some(c * d / div)
                } else {
                    None
                }
            },
            None => None,
        }
    }
}

/// The coefficients `(c, b)` of the quadratic `y^2 + (b - D) y = c` whose
/// root is the balance at `idx`: `c = c' * D * 100 / (Ann * n)` and
/// `b = sum' + D * 100 / Ann`, where `c'` and `sum'` run over the other
/// balances.
pub open spec fn y_coefficients(s: Seq<u64>, idx: int, d: int, ann: int) -> Option<(int, int)> {
    let n = s.len() as int;
    match c_upto(s, idx, n, d, s.len()) {
        Some(c0) => {
            let c = c0 * d * 100 / (ann * n);
            let b = sum_except(s, idx, s.len()) + d * 100 / ann;
            if fits(c0 * d) && fits(c0 * d * 100) && fits(ann * n) && ann * n != 0 && fits(d * 100)
                && fits(b) {
                Some((c, b))
            } else {
                None
            }
        },
        None => None,
    }
}

/// One Newton step for the balance: `(y*y + c) / (2*y + b - D)`, or `None`
/// where a value leaves `u128`, the divisor is negative or it is zero.
pub open spec fn y_next(c: int, b: int, d: int, y: int) -> Option<int> {
    let denom = 2 * y + b - d;
    if fits(y * y) && fits(y * y + c) && fits(2 * y) && fits(2 * y + b) && denom >= 0 && denom
        != 0 {
        Some((y * y + c) / denom)
    } else {
        None
    }
}

/// At most `k` Newton steps for the balance from `y`, stopping at the first
/// step that moves by at most one unit.
pub open spec fn y_iterate(c: int, b: int, d: int, y: int, k: nat) -> Option<int>
    decreases k,
{
    if k == 0 {
        Some(y)
    } else {
        match y_next(c, b, d, y) {
            Some(next) => if close(next, y) {
                Some(next)
            } else {
                y_iterate(c, b, d, next, (k - 1) as nat)
            },
            None => None,
        }
    }
}

/// The balance at `idx` that, with the other balances of `s`, keeps the
/// invariant at `d` under amplification `a`, with `Ann = a * n` for `n`
/// balances, as the bounded Newton iteration
/// computes it from `y = d`; `None` where a step fails or the result leaves
/// `u64`.
pub open spec fn y_of(s: Seq<u64>, idx: int, d: u64, a: u64) -> Option<int> {
    let ann = a * s.len();
    match y_coefficients(s, idx, d as int, ann) {
        Some(cb) => match y_iterate(cb.0, cb.1, d as int, d as int, NUMBER_OF_ITERATIONS_TO_CONVERGE as nat) {
            Some(y) => if 0 <= y <= u64::MAX {
                Some(y)
            } else {
                None
            },
            None => None,
        },
        None => None,
    }
}

/// Once a step of `c_upto` fails, every later one does.
proof fn lemma_c_none(s: Seq<u64>, idx: int, n: int, d: int, j: nat, k: nat)
    requires
        j <= k,
        c_upto(s, idx, n, d, j) is None,
    ensures
        c_upto(s, idx, n, d, k) is None,
    decreases k - j,
{
    if j < k {
        lemma_c_none(s, idx, n, d, j, (k - 1) as nat);
    }
}

/// The balance solved at `idx` does not depend on the balance it replaces:
/// only the other balances, the target invariant and the amplification
/// enter it.
pub proof fn lemma_y_ignores_own_balance(s: Seq<u64>, idx: int, v: u64, d: u64, a: u64)
    requires
        0 <= idx < s.len(),
    ensures
        y_of(s.update(idx, v), idx, d, a) == y_of(s, idx, d, a),
{
    let t = s.update(idx, v);
    let n = s.len() as int;
    lemma_except_ignores(s, idx, v, n, d as int, s.len());
    assert(y_coefficients(t, idx, d as int, a * s.len()) == y_coefficients(
        s,
        idx,
        d as int,
        a * s.len(),
    ));
}

/// `c_upto` and `sum_except` never read the balance at `idx`.
proof fn lemma_except_ignores(s: Seq<u64>, idx: int, v: u64, n: int, d: int, k: nat)
    requires
        0 <= idx < s.len(),
        k <= s.len(),
    ensures
        c_upto(s.update(idx, v), idx, n, d, k) == c_upto(s, idx, n, d, k),
        sum_except(s.update(idx, v), idx, k) == sum_except(s, idx, k),
    decreases k,
{
    if k > 0 {
        lemma_except_ignores(s, idx, v, n, d, (k - 1) as nat);
    }
}

/// One Newton step for the balance.
fn y_step(c: u128, b: u128, d: u128, y: u128) -> (r: Option<u128>)
    ensures
        lift(r) == y_next(c as int, b as int, d as int, y as int),
{
    let numer: u128 = y.checked_mul(y)?.checked_add(c)?;
    let denom: u128 = y.checked_mul(2)?.checked_add(b)?.checked_sub(d)?;
    numer.checked_div(denom)
}

/// The balance at `token_index` that keeps the invariant at `target_d`
/// under the (pre-scaled) amplification `amplitude`, given the other
/// balances: at most `NUMBER_OF_ITERATIONS_TO_CONVERGE` Newton steps from `y = target_d`, stopping once a
/// step moves by at most one unit. Fails where an intermediate value leaves
/// `u128`, a divisor is zero or negative (a query beyond the pool's
/// liquidity), or the result does not fit in `u64`.
pub fn get_y(balances: &[u64], token_index: usize, target_d: u64, amplitude: u64) -> (r: Option<
    u64,
>)
    ensures
        widen(r) == y_of(balances@, token_index as int, target_d, amplitude),
{
    let ghost s = balances@;
    let ghost idx = token_index as int;
    let n: u128 = balances.len() as u128;
    let d: u128 = target_d as u128;
    let mut c: u128 = d;
    let mut sum: u128 = 0;
    proof {
        lemma_word_product(amplitude as int, n as int);
    }
    let ann: u128 = amplitude as u128 * n;
    let mut i: usize = 0;
    while i < balances.len()
        invariant
            s == balances@,
            idx == token_index,
            0 <= i <= s.len(),
            n == s.len(),
            d == target_d,
            sum == sum_except(s, idx, i as nat),
            sum <= i * u64::MAX,
            c_upto(s, idx, n as int, d as int, i as nat) == Some(c as int),
        decreases s.len() - i,
    {
        if i != token_index {
            let b: u128 = balances[i] as u128;
            assert((i + 1) * u64::MAX <= u128::MAX) by (nonlinear_arith)
                requires
                    i < usize::MAX,
                    usize::MAX <= u64::MAX,
            ;
            sum = sum + b;
            proof {
                lemma_word_product(b as int, n as int);
            }
            let div: u128 = b * n;
            let cd: u128 = match c.checked_mul(d) {
                Some(v) => v,
                None => {
                    proof {
                        lemma_c_none(s, idx, n as int, d as int, (i + 1) as nat, s.len());
                    }
                    return None;
                },
            };
            if div == 0 {
                proof {
                    lemma_c_none(s, idx, n as int, d as int, (i + 1) as nat, s.len());
                }
                return None;
            }
            c = cd / div;
        }
        i = i + 1;
    }
    let c_scaled: u128 = c.checked_mul(d)?.checked_mul(A_PRECISION)?.checked_div(
        ann.checked_mul(n)?,
    )?;
    let b: u128 = sum.checked_add(d.checked_mul(A_PRECISION)?.checked_div(ann)?)?;
    let ghost target = y_iterate(c_scaled as int, b as int, d as int, d as int, NUMBER_OF_ITERATIONS_TO_CONVERGE as nat);
    let mut y: u128 = d;
    let mut k: u32 = 0;
    while k < NUMBER_OF_ITERATIONS_TO_CONVERGE
        invariant_except_break
            k <= NUMBER_OF_ITERATIONS_TO_CONVERGE,
            y_iterate(c_scaled as int, b as int, d as int, y as int, (NUMBER_OF_ITERATIONS_TO_CONVERGE - k) as nat) == target,
        invariant
            s == balances@,
            idx == token_index,
            d == target_d,
            n == s.len(),
            ann == amplitude * s.len(),
            y_coefficients(s, idx, d as int, ann as int) == Some((c_scaled as int, b as int)),
            target == y_iterate(c_scaled as int, b as int, d as int, d as int, NUMBER_OF_ITERATIONS_TO_CONVERGE as nat),
        ensures
            target == Some(y as int),
        decreases NUMBER_OF_ITERATIONS_TO_CONVERGE - k,
    {
        let next: u128 = match y_step(c_scaled, b, d, y) {
            Some(v) => v,
            None => return None,
        };
        if next > y {
            if next - y <= 1 {
                y = next;
                break;
            }
        } else if y - next <= 1 {
            y = next;
            break;
        }
        y = next;
        k = k + 1;
    }
    if y > u64::MAX as u128 {
        None
    } else {
        Some(y as u64)
    }
}

} // verus!
