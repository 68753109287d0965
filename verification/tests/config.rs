//! Construction-time validation and the error taxonomy.

use chirp::math::gcd_exec;
use chirp::{BitModulator, CarrierTable, Config, ModemError, WaveGenerator};

fn stock() -> Config {
    Config {
        samples: 32,
        stride: 13,
        repeats: 16,
        hi_gain: 900,
        lo_gain: 100,
    }
}

#[test]
fn default_config_is_the_stock_one() {
    let config = Config::default();
    assert_eq!(config, stock());
    assert!(config.validate().is_ok());
}

#[test]
fn validation_rejects_each_degenerate_parameter() {
    let zero_samples = Config { samples: 0, ..stock() };
    assert!(matches!(
        zero_samples.validate(),
        Err(ModemError::InvalidParameter(_))
    ));

    let zero_repeats = Config { repeats: 0, ..stock() };
    assert!(matches!(
        zero_repeats.validate(),
        Err(ModemError::InvalidParameter(_))
    ));

    let shared_factor = Config { stride: 4, ..stock() };
    assert!(matches!(
        shared_factor.validate(),
        Err(ModemError::InvalidParameter(_))
    ));

    let loud = Config { hi_gain: 1001, ..stock() };
    assert!(matches!(
        loud.validate(),
        Err(ModemError::InvalidParameter(_))
    ));

    let oversized = Config { samples: 65537, stride: 1, ..stock() };
    assert!(matches!(
        oversized.validate(),
        Err(ModemError::InvalidParameter(_))
    ));
}

#[test]
fn validation_accepts_coprime_geometries() {
    assert!(Config { stride: 1, ..stock() }.validate().is_ok());
    assert!(Config { stride: 15, ..stock() }.validate().is_ok());
    assert!(Config { samples: 1, stride: 0, ..stock() }.validate().is_ok());
    assert!(Config { repeats: 1, ..stock() }.validate().is_ok());
}

#[test]
fn invalid_configurations_never_reach_an_engine() {
    let bad = Config { stride: 8, ..stock() };
    let data = [0u8];
    assert!(WaveGenerator::with_config(&data, bad).is_err());
    assert!(BitModulator::new(bad, 1000).is_err());
}

#[test]
fn from_rates_derives_the_table_length() {
    let config = Config::from_rates(48_000, 19_500, 1, 16, 900, 100).unwrap();
    assert_eq!(config.samples, 2); // 48000 / 19500, integer division
    assert_eq!(config.stride, 1);

    assert!(matches!(
        Config::from_rates(48_000, 0, 13, 16, 900, 100),
        Err(ModemError::InvalidParameter(_))
    ));
    // a carrier above the sample rate leaves no table at all
    assert!(Config::from_rates(19_500, 48_000, 13, 16, 900, 100).is_err());
}

#[test]
fn gcd_exec_matches_euclid() {
    assert_eq!(gcd_exec(13, 32), 1);
    assert_eq!(gcd_exec(32, 13), 1);
    assert_eq!(gcd_exec(4, 32), 4);
    assert_eq!(gcd_exec(0, 5), 5);
    assert_eq!(gcd_exec(7, 0), 7);
    assert_eq!(gcd_exec(0, 0), 0);
    assert_eq!(gcd_exec(54, 24), 6);
}

#[test]
fn bit_modulator_frames_are_gain_scaled_tables() {
    let modulator = BitModulator::default();
    let table = CarrierTable::build(32, i16::MAX).unwrap();
    let hi = modulator.signal(true);
    let lo = modulator.signal(false);
    assert_eq!(hi.len(), 32);
    assert_eq!(lo.len(), 32);
    for i in 0..32 {
        let v = table.get(i) as i32;
        assert_eq!(hi[i] as i32, v * 900 / 1000, "high frame entry {}", i);
        assert_eq!(lo[i] as i32, v * 100 / 1000, "low frame entry {}", i);
    }
}

#[test]
fn bit_modulator_rejects_bad_parameters() {
    let bad = Config { samples: 0, ..stock() };
    assert!(matches!(
        BitModulator::new(bad, 100),
        Err(ModemError::InvalidParameter(_))
    ));
    assert!(matches!(
        BitModulator::new(stock(), -5),
        Err(ModemError::InvalidParameter(_))
    ));
}
