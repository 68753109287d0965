//! Modulation parameters and their construction-time validation.
//!
//! A configuration fixes the carrier-table geometry (`samples`, `stride`),
//! the symbol duration (`repeats`), and the two fixed-point amplitude gains.
//! Every engine constructor goes through [`Config::validate`], so sample
//! production never has to re-check a parameter: a zero table length, a zero
//! symbol duration, or a stride sharing a factor with the table length is
//! rejected before any state exists.

use vstd::prelude::*;

use crate::error::{ModemError, ModemResult};
use crate::math::{gcd, gcd_exec};

verus! {

/// Frequency in cycles per second.
pub type Hz = u32;

/// Default output samples per encoded bit.
pub const BIT_REPEATS: u8 = 16;

/// Default phase advance per output sample; coprime to `CARRIER_SAMPLES`.
pub const CARRIER_STEPS: u8 = 13;

/// Default carrier-table length.
pub const CARRIER_SAMPLES: u8 = 32;

/// Default carrier frequency: low-end ultrasonic.
pub const CARRIER_FREQ: Hz = 19_500;

/// Default output sample rate of a stock sound card.
pub const SAMPLE_RATE: Hz = 48_000;

/// Denominator of the fixed-point gains: a gain `g` scales an amplitude by
/// `g / GAIN_UNIT`.
pub const GAIN_UNIT: u32 = 1000;

/// Default gain for a one bit: nine tenths of full amplitude.
pub const DEFAULT_HI_GAIN: u32 = 900;

/// Default gain for a zero bit: one tenth of full amplitude, deliberately
/// non-zero so long runs of zeros still carry a detectable carrier.
pub const DEFAULT_LO_GAIN: u32 = 100;

/// Largest accepted carrier-table length and stride; keeps every
/// intermediate product of the table builder inside 64 bits.
pub const MAX_TABLE_LEN: usize = 65536;

/// Immutable parameters of one modulation engine.
#[derive(Clone, Copy, Debug, PartialEq, Eq, Structural)]
pub struct Config {
    /// Carrier-table length.
    pub samples: usize,
    /// Phase advance per output sample; must be coprime to `samples`.
    pub stride: usize,
    /// Output samples per encoded bit.
    pub repeats: usize,
    /// Gain applied while encoding a one bit, in `GAIN_UNIT`-ths.
    pub hi_gain: u32,
    /// Gain applied while encoding a zero bit, in `GAIN_UNIT`-ths.
    pub lo_gain: u32,
}

impl Config {
    /// The stock parameters, as a specification value.
    pub open spec fn default_spec() -> Config {
        Config {
            samples: CARRIER_SAMPLES as usize,
            stride: CARRIER_STEPS as usize,
            repeats: BIT_REPEATS as usize,
            hi_gain: DEFAULT_HI_GAIN,
            lo_gain: DEFAULT_LO_GAIN,
        }
    }

    /// A configuration that sample production can run on: non-degenerate
    /// table geometry, coprime stride, gains within one full amplitude.
    pub open spec fn valid(self) -> bool {
        &&& 1 <= self.samples <= MAX_TABLE_LEN
        &&& self.stride <= MAX_TABLE_LEN
        &&& gcd(self.stride as nat, self.samples as nat) == 1
        &&& 1 <= self.repeats
        &&& self.hi_gain <= GAIN_UNIT
        &&& self.lo_gain <= GAIN_UNIT
    }

    /// Checks every construction-time invariant, and names the first one
    /// violated. Succeeds exactly on valid configurations.
    pub fn validate(&self) -> (r: ModemResult<()>)
        ensures
            r is Ok <==> self.valid(),
            r is Err ==> r->Err_0 is InvalidParameter,
    {
        if self.samples == 0 || self.samples > MAX_TABLE_LEN {
            Err(ModemError::InvalidParameter("carrier table length out of range".to_owned()))
        } else if self.stride > MAX_TABLE_LEN {
            Err(ModemError::InvalidParameter("phase stride out of range".to_owned()))
        } else if self.repeats == 0 {
            Err(ModemError::InvalidParameter("samples per bit must be positive".to_owned()))
        } else if self.hi_gain > GAIN_UNIT || self.lo_gain > GAIN_UNIT {
            Err(ModemError::InvalidParameter("gain exceeds full amplitude".to_owned()))
        } else if gcd_exec(self.stride, self.samples) != 1 {
            Err(
                ModemError::InvalidParameter(
                    "stride must be coprime to the table length".to_owned(),
                ),
            )
        } else {
            Ok(())
        }
    }

    /// Derives the carrier-table length from a sample rate and carrier
    /// frequency: one table entry per output sample of one carrier period.
    pub fn from_rates(
        sample_rate: Hz,
        carrier_freq: Hz,
        stride: usize,
        repeats: usize,
        hi_gain: u32,
        lo_gain: u32,
    ) -> (r: ModemResult<Config>)
        ensures
            ({
                let c = Config {
                    samples: (sample_rate as int / carrier_freq as int) as usize,
                    stride,
                    repeats,
                    hi_gain,
                    lo_gain,
                };
                &&& r is Ok <==> (carrier_freq > 0 && c.valid())
                &&& r is Ok ==> r->Ok_0 == c
                &&& r is Err ==> r->Err_0 is InvalidParameter
            }),
    {
        if carrier_freq == 0 {
            return Err(
                ModemError::InvalidParameter("carrier frequency must be positive".to_owned()),
            );
        }
        let samples = (sample_rate / carrier_freq) as usize;
        let config = Config { samples, stride, repeats, hi_gain, lo_gain };
        match config.validate() {
            Ok(_) => Ok(config),
            Err(e) => Err(e),
        }
    }
}

impl Default for Config {
    /// The stock parameters: a 32-entry table walked 13 entries per sample,
    /// 16 samples per bit, gains of 0.9 and 0.1 of full amplitude.
    fn default() -> (c: Config)
        ensures
            c == Config::default_spec(),
            c.valid(),
    {
        proof {
            reveal_with_fuel(gcd, 6);
            assert(gcd(13nat, 32nat) == 1);
        }
        Config {
            samples: CARRIER_SAMPLES as usize,
            stride: CARRIER_STEPS as usize,
            repeats: BIT_REPEATS as usize,
            hi_gain: DEFAULT_HI_GAIN,
            lo_gain: DEFAULT_LO_GAIN,
        }
    }
}

} // verus!
