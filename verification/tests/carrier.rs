//! The quantized carrier table.

use chirp::{CarrierTable, ModemError};

#[test]
fn carrier_table_is_deterministic() {
    let first = CarrierTable::build(32, i16::MAX).unwrap();
    let second = CarrierTable::build(32, i16::MAX).unwrap();
    assert_eq!(first.len(), second.len());
    for i in 0..first.len() {
        assert_eq!(first.get(i), second.get(i), "entry {}", i);
    }
}

#[test]
fn carrier_table_known_entries() {
    // One period of the quantized sinusoid at full amplitude: zero at the
    // start and midpoint, the positive peak a quarter in, the negative
    // peak three quarters in.
    let table = CarrierTable::build(32, i16::MAX).unwrap();
    assert_eq!(table.len(), 32);
    assert_eq!(table.amplitude(), 32767);
    assert_eq!(table.get(0), 0);
    assert_eq!(table.get(8), 32767);
    assert_eq!(table.get(16), 0);
    assert_eq!(table.get(24), -32767);
    // an off-peak entry of the rational approximation, computed by hand:
    // 32767 * 16 * 192 / (5 * 1024 - 4 * 192) = 100660224 / 4352 = 23129
    assert_eq!(table.get(4), 23129);
}

#[test]
fn carrier_table_values_stay_inside_amplitude() {
    let amplitude = 1000i16;
    let table = CarrierTable::build(77, amplitude).unwrap();
    assert_eq!(table.len(), 77);
    for i in 0..table.len() {
        let v = table.get(i);
        assert!(-amplitude <= v && v <= amplitude, "entry {} is {}", i, v);
    }
}

#[test]
fn carrier_table_half_periods_mirror() {
    let table = CarrierTable::build(32, i16::MAX).unwrap();
    for i in 1..16 {
        assert_eq!(table.get(i), -table.get(i + 16), "entries {} and {}", i, i + 16);
    }
}

#[test]
fn carrier_table_rejects_bad_parameters() {
    assert!(matches!(
        CarrierTable::build(0, 100),
        Err(ModemError::InvalidParameter(_))
    ));
    assert!(matches!(
        CarrierTable::build(65537, 100),
        Err(ModemError::InvalidParameter(_))
    ));
    assert!(matches!(
        CarrierTable::build(32, -1),
        Err(ModemError::InvalidParameter(_))
    ));
    assert!(CarrierTable::build(65536, 0).is_ok());
    assert!(CarrierTable::build(1, 32767).is_ok());
}
