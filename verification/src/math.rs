//! Number theory behind the phase cursor.
//!
//! The modulation engine advances its carrier-table cursor by a fixed stride
//! modulo the table length. When the stride and the length are coprime this
//! walk is a cyclic permutation of all table positions: it returns to its
//! starting point after exactly one pass and visits every position exactly
//! once on the way. This module defines `gcd`, proves the Bezout identity it
//! needs, and states that coverage property.

use vstd::prelude::*;
use vstd::arithmetic::div_mod::{
    lemma_add_mod_noop, lemma_fundamental_div_mod, lemma_fundamental_div_mod_converse_mod,
    lemma_mod_bound, lemma_mod_equivalence, lemma_mul_mod_noop_left, lemma_small_mod,
};

verus! {

/// Greatest common divisor, by the Euclidean recurrence.
pub open spec fn gcd(a: nat, b: nat) -> nat
    decreases b,
{
    if b == 0 {
        a
    } else {
        gcd(b, a % b)
    }
}

/// The carrier-table position reached after `k` advances of `stride` from
/// `start`, modulo the table length `samples`.
pub open spec fn phase_at(start: int, stride: int, samples: int, k: int) -> int
    recommends
        samples >= 1,
{
    (start + k * stride) % samples
}

/// Whether some step among the first `samples` advances from `start` lands
/// on position `p`.
pub open spec fn phase_hits(start: int, stride: int, samples: int, p: int) -> bool {
    exists|k: int| 0 <= k < samples && #[trigger] phase_at(start, stride, samples, k) == p
}

/// Euclid's algorithm, executed.
pub fn gcd_exec(a: usize, b: usize) -> (g: usize)
    ensures
        g as nat == gcd(a as nat, b as nat),
{
    let mut x = a;
    let mut y = b;
    while y != 0
        invariant
            gcd(x as nat, y as nat) == gcd(a as nat, b as nat),
        decreases y,
    {
        let r = x % y;
        x = y;
        y = r;
    }
    x
}

/// Bezout's identity: some integer combination of `a` and `b` equals their
/// greatest common divisor. Returns the pair of coefficients.
pub proof fn lemma_bezout(a: nat, b: nat) -> (c: (int, int))
    ensures
        c.0 * a + c.1 * b == gcd(a, b),
    decreases b,
{
    if b == 0 {
        (1, 0)
    } else {
        let (x, y) = lemma_bezout(b, a % b);
        let q = a as int / b as int;
        lemma_fundamental_div_mod(a as int, b as int);
        assert(a % b == a - q * b);
        assert(x * b + y * (a - q * b) == y * a + (x - y * q) * b) by (nonlinear_arith);
        (y, x - y * q)
    }
}

/// Euclid's lemma, specialized: if `samples` divides `k * stride` and is
/// coprime to `stride`, it divides `k`.
pub proof fn lemma_coprime_divides(stride: nat, samples: nat, k: int)
    requires
        samples >= 1,
        gcd(stride, samples) == 1,
        (k * stride) % (samples as int) == 0,
    ensures
        k % (samples as int) == 0,
{
    let s = stride as int;
    let n = samples as int;
    let (x, y) = lemma_bezout(stride, samples);
    assert(x * s + y * n == 1);
    lemma_fundamental_div_mod(k * s, n);
    let q = (k * s) / n;
    assert(k * s == n * q);
    assert(k == k * (x * s + y * n)) by (nonlinear_arith)
        requires
            x * s + y * n == 1,
    ;
    assert(k == x * (k * s) + (k * y) * n) by (nonlinear_arith)
        requires
            k == k * (x * s + y * n),
    ;
    assert(k == (x * q + k * y) * n) by (nonlinear_arith)
        requires
            k == x * (k * s) + (k * y) * n,
            k * s == n * q,
    ;
    lemma_fundamental_div_mod_converse_mod(k, n, x * q + k * y, 0);
}

/// Advancing by a coprime stride visits each of the `samples` table
/// positions exactly once per pass: the first `samples` steps from any
/// starting position are pairwise distinct, reach every position, and step
/// number `samples` lands back on the start.
pub proof fn lemma_phase_cycle_coverage(samples: int, stride: int, start: int)
    requires
        samples >= 1,
        stride >= 0,
        0 <= start < samples,
        gcd(stride as nat, samples as nat) == 1,
    ensures
        phase_at(start, stride, samples, samples) == start,
        forall|i: int, j: int|
            0 <= i < j < samples ==> phase_at(start, stride, samples, i) != phase_at(
                start,
                stride,
                samples,
                j,
            ),
        forall|p: int| 0 <= p < samples ==> #[trigger] phase_hits(start, stride, samples, p),
{
    let n = samples;
    let s = stride;

    // One full pass returns to the start.
    assert(start + n * s == (s) * n + start) by (nonlinear_arith);
    lemma_fundamental_div_mod_converse_mod(start + n * s, n, s, start);
    assert(phase_at(start, s, n, n) == start);

    // Distinctness of the first `n` steps.
    assert forall|i: int, j: int| 0 <= i < j < n implies phase_at(start, s, n, i) != phase_at(
        start,
        s,
        n,
        j,
    ) by {
        if phase_at(start, s, n, i) == phase_at(start, s, n, j) {
            lemma_mod_equivalence(start + j * s, start + i * s, n);
            assert((start + j * s) - (start + i * s) == (j - i) * s) by (nonlinear_arith);
            lemma_coprime_divides(s as nat, n as nat, j - i);
            lemma_small_mod((j - i) as nat, n as nat);
            assert(false);
        }
    }

    // Every position is reached within the first `n` steps.
    let (x, y) = lemma_bezout(s as nat, n as nat);
    assert(x * s + y * n == 1);
    assert forall|p: int| 0 <= p < n implies #[trigger] phase_hits(start, s, n, p) by {
        let t = p - start;
        let k = (x * t) % n;
        lemma_mod_bound(x * t, n);
        // (k * s) % n == (x * t * s) % n
        lemma_mul_mod_noop_left(x * t, s, n);
        assert(k * s == ((x * t) % n) * s);
        // x * t * s == t - (t * y) * n, from the Bezout identity
        assert((x * t) * s == t + n * (-(t * y))) by (nonlinear_arith)
            requires
                x * s + y * n == 1,
        ;
        // therefore (x * t * s) % n == t % n
        lemma_fundamental_div_mod(t, n);
        lemma_mod_bound(t, n);
        assert((x * t) * s == (-(t * y) + t / n) * n + t % n) by (nonlinear_arith)
            requires
                (x * t) * s == t + n * (-(t * y)),
                t == n * (t / n) + t % n,
        ;
        lemma_fundamental_div_mod_converse_mod(
            (x * t) * s,
            n,
            -(t * y) + t / n,
            t % n,
        );
        assert((k * s) % n == t % n);
        // fold the start back in
        lemma_add_mod_noop(start, k * s, n);
        lemma_add_mod_noop(start, t, n);
        lemma_small_mod(start as nat, n as nat);
        assert(start + t == p);
        lemma_small_mod(p as nat, n as nat);
        assert(phase_at(start, s, n, k) == p);
        assert(0 <= k < n && phase_at(start, s, n, k) == p);
    }
}

} // verus!
