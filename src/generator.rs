//! Linear congruential generator with bounded rejection sampling.
use vstd::prelude::*;

use crate::Errors;

verus! {

/// The `k`-th state of the generator `x := (a * x + c) mod m`, starting from `x = 0`.
pub open spec fn lcg_value(a: nat, c: nat, m: nat, k: nat) -> nat
    decreases k,
{
    if k == 0 {
        0
    } else {
        (a * lcg_value(a, c, m, (k - 1) as nat) + c) % m
    }
}

/// The first state among steps `k + 1 ..= m` that lies in `[lo, hi)`.
pub open spec fn lcg_search(a: nat, c: nat, m: nat, lo: nat, hi: nat, k: nat) -> Result<u64, Errors>
    decreases m - k,
{
    if k >= m {
        Err(Errors::RandomNumberNotFound)
    } else {
        let x = lcg_value(a, c, m, k + 1);
        if lo <= x && x < hi {
            Ok(x as u64)
        } else {
            lcg_search(a, c, m, lo, hi, k + 1)
        }
    }
}

/// What `generate_random_number` returns: the first of the first `modulus` states
/// that lies in `[min, max)`.
pub open spec fn generate_spec(multiplier: u32, increment: u32, modulus: u32, min: u32, max: u32) -> Result<u64, Errors> {
    lcg_search(multiplier as nat, increment as nat, modulus as nat, min as nat, max as nat, 0)
}

/// Every value the search finds is in range and is one of the states it visits.
pub proof fn lemma_search_in_range(a: nat, c: nat, m: nat, lo: nat, hi: nat, k: nat)
    requires
        m <= u64::MAX,
    ensures
        lcg_search(a, c, m, lo, hi, k) is Err ==> lcg_search(a, c, m, lo, hi, k) == Err::<u64, Errors>(
            Errors::RandomNumberNotFound,
        ),
        lcg_search(a, c, m, lo, hi, k) is Ok ==> {
            let v = lcg_search(a, c, m, lo, hi, k)->Ok_0;
            lo <= v < hi && exists|j: nat| k < j <= m && v == lcg_value(a, c, m, j)
        },
    decreases m - k,
{
    if k < m {
        lemma_search_in_range(a, c, m, lo, hi, k + 1);
        let x = lcg_value(a, c, m, k + 1);
        if lo <= x && x < hi {
            assert(x < m) by {
                lemma_lcg_value_below(a, c, m, k + 1);
            }
            assert(x as u64 == x);
        }
    }
}

/// Every state after the first step is below the modulus.
pub proof fn lemma_lcg_value_below(a: nat, c: nat, m: nat, k: nat)
    requires
        m > 0,
        k > 0,
    ensures
        lcg_value(a, c, m, k) < m,
{
}

/// If some state among steps `k + 1 ..= m` lies in `[lo, hi)`, the search succeeds.
pub proof fn lemma_search_finds(a: nat, c: nat, m: nat, lo: nat, hi: nat, k: nat, j: nat)
    requires
        k < j <= m,
        lo <= lcg_value(a, c, m, j) < hi,
    ensures
        lcg_search(a, c, m, lo, hi, k) is Ok,
    decreases m - k,
{
    if k + 1 < j {
        let x = lcg_value(a, c, m, k + 1);
        if !(lo <= x && x < hi) {
            lemma_search_finds(a, c, m, lo, hi, k + 1, j);
        }
    }
}

proof fn lemma_step_fits(a: u32, x: u64, c: u32, m: u32)
    requires
        x < m,
    ensures
        a as int * x as int + c as int <= u64::MAX,
{
    assert(a as int * x as int <= 0xffff_ffff * 0xffff_ffffint) by (nonlinear_arith)
        requires
            a <= 0xffff_ffff,
            x <= 0xffff_ffff,
    ;
}

/// Runs the generator from `x = 0` for at most `modulus` steps and returns the first
/// state in `[min, max)`; fails with `RandomNumberNotFound` when none of them is.
pub fn generate_random_number(multiplier: u32, increment: u32, modulus: u32, min: u32, max: u32) -> (r: Result<u64, Errors>)
    ensures
        r == generate_spec(multiplier, increment, modulus, min, max),
        r is Ok ==> min <= r->Ok_0 < max,
{
    let ghost a = multiplier as nat;
    let ghost c = increment as nat;
    let ghost m = modulus as nat;
    let ghost lo = min as nat;
    let ghost hi = max as nat;
    let mut x: u64 = 0;
    let mut i: u32 = 0;
    while i < modulus
        invariant
            i <= modulus,
            a == multiplier as nat && c == increment as nat && m == modulus as nat,
            lo == min as nat && hi == max as nat,
            x == lcg_value(a, c, m, i as nat),
            i == 0 || x < modulus,
            lcg_search(a, c, m, lo, hi, 0) == lcg_search(a, c, m, lo, hi, i as nat),
        decreases modulus - i,
    {
        proof {
            lemma_step_fits(multiplier, x, increment, modulus);
        }
        let ghost prev = i as nat;
        let step: u64 = multiplier as u64 * x + increment as u64;
        x = step % (modulus as u64);
        i = i + 1;
        assert(lcg_value(a, c, m, prev + 1) == (a * lcg_value(a, c, m, prev) + c) % m);
        assert(x == lcg_value(a, c, m, i as nat));
        assert(lcg_search(a, c, m, lo, hi, prev) == if lo <= x && x < hi {
            Ok::<u64, Errors>(x)
        } else {
            lcg_search(a, c, m, lo, hi, prev + 1)
        });
        if min as u64 <= x && x < max as u64 {
            return Ok(x);
        }
    }
    Err(Errors::RandomNumberNotFound)
}

} // verus!
