//! The quantized carrier lookup table.
//!
//! One period of a sinusoid, sampled at `samples` equally spaced points and
//! quantized to signed 16-bit amplitudes, is precomputed once so that sample
//! production never evaluates trigonometry. The sinusoid is defined by an
//! integer rational approximation (a Bhaskara-style quotient of quadratics),
//! so the whole table is a pure function of its parameters: building it
//! twice with the same parameters yields the same sequence element for
//! element, and every entry is clamped inside the requested amplitude.

use vstd::prelude::*;
use vstd::arithmetic::div_mod::{lemma_div_by_multiple, lemma_div_is_ordered, lemma_div_pos_is_pos};

use crate::config::MAX_TABLE_LEN;
use crate::error::{ModemError, ModemResult};

verus! {

/// Default peak amplitude of a quantized carrier: full signed 16-bit range.
pub const DEFAULT_AMPLITUDE: i16 = i16::MAX;

/// The table entry at position `i` of an `n`-point table with peak
/// amplitude `amplitude`: a rational approximation of
/// `amplitude * sin(2 * pi * i / n)`, quantized toward zero.
///
/// Positions in the first half-period map onto `j = 2 * i` and the second
/// half onto `j = 2 * i - n`, so that `j / n` sweeps one half-period of the
/// approximation `sin(pi * t) ~ 16 t (1 - t) / (5 - 4 t (1 - t))`, negated
/// on the second half.
pub open spec fn carrier_value(i: int, n: int, amplitude: int) -> int
    recommends
        0 <= i < n,
        1 <= n,
        0 <= amplitude,
{
    let j = if 2 * i <= n {
        2 * i
    } else {
        2 * i - n
    };
    let u = j * (n - j);
    let m = (amplitude * 16 * u) / (5 * n * n - 4 * u);
    if 2 * i <= n {
        m
    } else {
        -m
    }
}

/// Every table entry lies within the peak amplitude.
pub proof fn lemma_carrier_value_bounds(i: int, n: int, amplitude: int)
    requires
        0 <= i < n,
        1 <= n,
        0 <= amplitude,
    ensures
        -amplitude <= carrier_value(i, n, amplitude) <= amplitude,
{
    let j = if 2 * i <= n {
        2 * i
    } else {
        2 * i - n
    };
    let u = j * (n - j);
    let den = 5 * n * n - 4 * u;
    assert(0 <= u && 4 * u <= n * n) by (nonlinear_arith)
        requires
            0 <= j <= n,
            u == j * (n - j),
    ;
    assert(den >= 4 * n * n && den > 0 && 16 * u <= den) by (nonlinear_arith)
        requires
            0 <= u,
            4 * u <= n * n,
            1 <= n,
            den == 5 * n * n - 4 * u,
    ;
    let m = (amplitude * 16 * u) / den;
    lemma_div_pos_is_pos(amplitude * 16 * u, den);
    assert(amplitude * 16 * u >= 0) by (nonlinear_arith)
        requires
            amplitude >= 0,
            u >= 0,
    ;
    assert(amplitude * 16 * u <= amplitude * den) by (nonlinear_arith)
        requires
            amplitude >= 0,
            16 * u <= den,
    ;
    lemma_div_is_ordered(amplitude * 16 * u, amplitude * den, den);
    lemma_div_by_multiple(amplitude, den);
    assert(amplitude * den == den * amplitude) by (nonlinear_arith);
    assert(m <= amplitude);
}

/// The carrier lookup table: immutable once built, shared read-only by
/// every engine that modulates with it.
pub struct CarrierTable {
    values: Vec<i16>,
    amplitude: i16,
}

impl View for CarrierTable {
    type V = Seq<i16>;

    closed spec fn view(&self) -> Seq<i16> {
        self.values@
    }
}

impl CarrierTable {
    /// The peak amplitude the table was built for.
    pub closed spec fn spec_amplitude(self) -> i16 {
        self.amplitude
    }

    /// A well-formed table: non-degenerate length, non-negative peak, and
    /// every entry equal to the quantized sinusoid at its position.
    pub open spec fn wf(self) -> bool {
        &&& 1 <= self@.len() <= MAX_TABLE_LEN
        &&& 0 <= self.spec_amplitude()
        &&& forall|i: int|
            0 <= i < self@.len() ==> self@[i] == carrier_value(
                i,
                self@.len() as int,
                self.spec_amplitude() as int,
            )
    }

    /// Builds the table for a valid geometry; rejects a zero or oversized
    /// length and a negative amplitude, and succeeds on everything else.
    pub fn build(samples: usize, amplitude: i16) -> (r: ModemResult<CarrierTable>)
        ensures
            r is Ok <==> (1 <= samples <= MAX_TABLE_LEN && amplitude >= 0),
            r is Err ==> r->Err_0 is InvalidParameter,
            r is Ok ==> {
                let t = r->Ok_0;
                &&& t.wf()
                &&& t@.len() == samples
                &&& t.spec_amplitude() == amplitude
            },
    {
        if samples == 0 || samples > MAX_TABLE_LEN {
            Err(ModemError::InvalidParameter("carrier table length out of range".to_owned()))
        } else if amplitude < 0 {
            Err(ModemError::InvalidParameter("amplitude must be non-negative".to_owned()))
        } else {
            Ok(Self::build_unchecked(samples, amplitude))
        }
    }

    /// Builds the table when the parameters are already known to be good.
    pub(crate) fn build_unchecked(samples: usize, amplitude: i16) -> (t: CarrierTable)
        requires
            1 <= samples <= MAX_TABLE_LEN,
            amplitude >= 0,
        ensures
            t.wf(),
            t@.len() == samples,
            t.spec_amplitude() == amplitude,
    {
        let n: u64 = samples as u64;
        let a: u64 = amplitude as u64;
        let mut values: Vec<i16> = Vec::with_capacity(samples);
        let mut i: usize = 0;
        while i < samples
            invariant
                i <= samples,
                1 <= samples <= MAX_TABLE_LEN,
                n == samples,
                a == amplitude,
                0 <= amplitude,
                values@.len() == i,
                forall|k: int|
                    0 <= k < i ==> values@[k] == carrier_value(
                        k,
                        samples as int,
                        amplitude as int,
                    ),
            decreases samples - i,
        {
            let iw: u64 = i as u64;
            let j: u64 = if 2 * iw <= n {
                2 * iw
            } else {
                2 * iw - n
            };
            assert(j <= n);
            proof {
                assert(0 <= (j as int) * ((n - j) as int) && (j as int) * ((n - j) as int) <= (
                n as int) * (n as int) && 20 * ((j as int) * ((n - j) as int)) <= 5 * (n as int) * (
                n as int) && (n as int) * (n as int) <= 65536 * 65536 && 5 * (n as int) * (
                n as int) <= 5 * 65536 * 65536 && 4 * ((j as int) * ((n - j) as int)) + 4 <= 5 * (
                n as int) * (n as int)) by (nonlinear_arith)
                    requires
                        0 <= j as int <= n as int <= 65536,
                        1 <= n as int,
                ;
            }
            let u: u64 = j * (n - j);
            let den: u64 = 5 * n * n - 4 * u;
            proof {
                assert((a as int) * 16 * (u as int) <= 32767 * 16 * (65536 * 65536))
                    by (nonlinear_arith)
                    requires
                        0 <= a as int <= 32767,
                        0 <= u as int <= 65536 * 65536,
                ;
            }
            let num: u64 = a * 16 * u;
            let m: u64 = num / den;
            proof {
                lemma_carrier_value_bounds(i as int, samples as int, amplitude as int);
                assert(m <= amplitude) by {
                    assert(num <= a * den) by (nonlinear_arith)
                        requires
                            num == a * 16 * u,
                            16 * u <= den,
                    ;
                    lemma_div_is_ordered(num as int, (a * den) as int, den as int);
                    lemma_div_by_multiple(a as int, den as int);
                    assert(a * den == den * a) by (nonlinear_arith);
                }
            }
            let value: i16 = if 2 * iw <= n {
                m as i16
            } else {
                -(m as i16)
            };
            assert(value == carrier_value(i as int, samples as int, amplitude as int));
            values.push(value);
            i += 1;
        }
        CarrierTable { values, amplitude }
    }

    /// Number of entries.
    pub fn len(&self) -> (l: usize)
        ensures
            l == self@.len(),
    {
        self.values.len()
    }

    /// The peak amplitude the table was built for.
    pub fn amplitude(&self) -> (a: i16)
        ensures
            a == self.spec_amplitude(),
    {
        self.amplitude
    }

    /// The entry at position `i`.
    pub fn get(&self, i: usize) -> (v: i16)
        requires
            i < self@.len(),
        ensures
            v == self@[i as int],
    {
        self.values[i]
    }
}

/// The carrier table is a pure function of its parameters: two well-formed
/// tables of the same length and peak amplitude agree element for element,
/// however and whenever each was built.
pub proof fn lemma_build_deterministic(t1: CarrierTable, t2: CarrierTable)
    requires
        t1.wf(),
        t2.wf(),
        t1@.len() == t2@.len(),
        t1.spec_amplitude() == t2.spec_amplitude(),
    ensures
        t1@ == t2@,
{
    assert forall|i: int| 0 <= i < t1@.len() implies t1@[i] == t2@[i] by {}
    assert(t1@ =~= t2@);
}

} // verus!
