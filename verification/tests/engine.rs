//! End-to-end behavior of the modulation engines.

use chirp::{ByteModulator, CarrierTable, Config, WaveGenerator};

/// The default carrier table, read out as plain values.
fn table_values() -> Vec<i16> {
    let table = CarrierTable::build(32, i16::MAX).unwrap();
    let mut values = Vec::new();
    for i in 0..table.len() {
        values.push(table.get(i));
    }
    values
}

/// Fixed-point gain scaling, as the engine applies it.
fn scale(v: i16, gain: i32) -> i16 {
    ((v as i32) * gain / 1000) as i16
}

/// Drains a generator to exhaustion.
fn drain(generator: &mut WaveGenerator) -> Vec<i16> {
    let mut samples = Vec::new();
    while let Some(s) = generator.next() {
        samples.push(s);
    }
    samples
}

#[test]
fn drain_count_is_bits_times_repeats() {
    let data = [0x5au8, 0x33u8];
    let mut generator = WaveGenerator::new(&data);
    let samples = drain(&mut generator);
    assert_eq!(samples.len(), 2 * 8 * 16);
    // exhaustion is terminal
    assert_eq!(generator.next(), None);
    assert_eq!(generator.next(), None);
}

#[test]
fn empty_buffer_yields_nothing() {
    let data: [u8; 0] = [];
    let mut generator = WaveGenerator::new(&data);
    assert_eq!(generator.next(), None);
    assert_eq!(generator.next(), None);
}

#[test]
fn gain_mapping_byte_one() {
    // Byte 0b0000_0001, LSB first: one high-gain bit, then seven low-gain
    // bits; 16 samples each at the default symbol duration.
    let table = table_values();
    let data = [0b0000_0001u8];
    let mut generator = WaveGenerator::new(&data);
    let samples = drain(&mut generator);
    assert_eq!(samples.len(), 128);
    for (k, &sample) in samples.iter().enumerate() {
        let phase = (k * 13) % 32;
        let gain = if k < 16 { 900 } else { 100 };
        assert_eq!(sample, scale(table[phase], gain), "sample {}", k);
    }
}

#[test]
fn unity_gain_exposes_phase_cycle() {
    // With a gain of exactly one, the emitted samples are the raw table
    // entries under the phase cursor: the first 32 samples walk the stride
    // sequence 0, 13, 26, 7, 20, ... and sample 32 returns to entry 0.
    let table = table_values();
    let config = Config {
        samples: 32,
        stride: 13,
        repeats: 16,
        hi_gain: 1000,
        lo_gain: 1000,
    };
    let data = [0xffu8];
    let mut generator = WaveGenerator::with_config(&data, config).unwrap();
    let samples = drain(&mut generator);
    assert_eq!(samples[0], table[0]);
    assert_eq!(samples[1], table[13]);
    assert_eq!(samples[2], table[26]);
    assert_eq!(samples[3], table[7]);
    assert_eq!(samples[4], table[20]);
    assert_eq!(samples[5], table[1]);
    assert_eq!(samples[6], table[14]);
    let mut visited = [false; 32];
    for k in 0..32 {
        let phase = (k * 13) % 32;
        assert_eq!(samples[k], table[phase]);
        assert!(!visited[phase], "phase {} repeated inside one pass", phase);
        visited[phase] = true;
    }
    assert!(visited.iter().all(|&v| v), "one pass covers every phase");
    assert_eq!(samples[32], table[0], "the cycle returns to its start");
}

#[test]
fn custom_geometry_follows_the_same_law() {
    // A 5-entry table walked 2 entries per sample, 3 samples per bit:
    // the stream is still table[(k * stride) % samples] under the bit's gain.
    let config = Config {
        samples: 5,
        stride: 2,
        repeats: 3,
        hi_gain: 750,
        lo_gain: 250,
    };
    let table = CarrierTable::build(5, i16::MAX).unwrap();
    let data = [0b0000_0110u8];
    let mut generator = WaveGenerator::with_config(&data, config).unwrap();
    let samples = drain(&mut generator);
    assert_eq!(samples.len(), 8 * 3);
    for (k, &sample) in samples.iter().enumerate() {
        let bit = k / 3;
        let gain = if bit == 1 || bit == 2 { 750 } else { 250 };
        let phase = (k * 2) % 5;
        assert_eq!(sample, scale(table.get(phase), gain), "sample {}", k);
    }
}

#[test]
fn byte_modulator_matches_wave_generator() {
    // Loading bytes one after another never resets the phase cursor, so a
    // chain of single-byte drains equals one drain of the whole buffer.
    let data = [0xc3u8, 0x1eu8];
    let mut generator = WaveGenerator::new(&data);
    let expected = drain(&mut generator);

    let mut modulator = ByteModulator::default();
    let mut chained = Vec::new();
    for &byte in data.iter() {
        modulator.load(byte);
        let mut buffer = vec![0i16; 128];
        let unfilled = modulator.fill(&mut buffer);
        assert_eq!(unfilled, 0);
        chained.extend_from_slice(&buffer);
    }
    assert_eq!(chained, expected);
}

#[test]
fn fill_is_chunk_size_independent() {
    // Draining through many small buffers yields the same stream as one
    // big fill: no sample is duplicated or dropped at buffer seams.
    let mut modulator = ByteModulator::default();
    modulator.load(0xa5);
    let mut whole = vec![0i16; 128];
    assert_eq!(modulator.fill(&mut whole), 0);

    let mut modulator = ByteModulator::default();
    modulator.load(0xa5);
    let mut chunked = Vec::new();
    loop {
        let mut buffer = vec![0i16; 7];
        let unfilled = modulator.fill(&mut buffer);
        let filled = buffer.len() - unfilled;
        chunked.extend_from_slice(&buffer[..filled]);
        if unfilled > 0 {
            break;
        }
    }
    assert_eq!(chunked, whole);
}

#[test]
fn fill_reports_unfilled_slots_and_leaves_them_alone() {
    let mut modulator = ByteModulator::default();
    modulator.load(0x01);
    let mut buffer = vec![7i16; 200];
    let unfilled = modulator.fill(&mut buffer);
    assert_eq!(unfilled, 72); // 200 - 128
    for t in 128..200 {
        assert_eq!(buffer[t], 7, "slot {} must stay untouched", t);
    }
    // a drained engine fills nothing more
    let mut buffer = vec![7i16; 4];
    assert_eq!(modulator.fill(&mut buffer), 4);
    assert_eq!(buffer, vec![7i16; 4]);
}

#[test]
fn load_restarts_the_bit_stream() {
    let mut modulator = ByteModulator::default();
    modulator.load(0xff);
    let mut first = vec![0i16; 40];
    assert_eq!(modulator.fill(&mut first), 0);
    // reload mid-drain: the drain restarts at bit zero
    modulator.load(0xff);
    let mut again = vec![0i16; 128];
    assert_eq!(modulator.fill(&mut again), 0);
    assert_eq!(again.len(), 128);
}
