//! The buffer-composition layer: readers, writers, and batched drains.

use chirp::{WaveReader, WaveWriter, WriteStatus};

#[test]
fn reader_reads_in_order_and_never_overruns() {
    let segment = [1i16, 2, 3, 4, 5];
    let mut reader = WaveReader::new(&segment);
    assert_eq!(reader.remaining(), 5);
    assert_eq!(reader.read(3), &[1, 2, 3]);
    assert_eq!(reader.remaining(), 2);
    // asking for more than remains returns what remains
    assert_eq!(reader.read(10), &[4, 5]);
    assert_eq!(reader.remaining(), 0);
    // an exhausted reader yields an empty slice, not an error
    assert_eq!(reader.read(1), &[] as &[i16]);
}

#[test]
fn write_copies_min_of_both_cursors() {
    let segment = [10i16, 20, 30, 40];
    let mut reader = WaveReader::new(&segment);
    let mut writer = WaveWriter::with_capacity(10);
    let status = writer.write(&mut reader);
    assert_eq!(status, WriteStatus::Remaining(6));
    assert_eq!(reader.remaining(), 0);
    let out = writer.into_buffer();
    assert_eq!(&out[..4], &[10, 20, 30, 40]);
    assert_eq!(&out[4..], &[0i16; 6]);
}

#[test]
fn write_truncates_at_capacity() {
    let segment = [10i16, 20, 30, 40];
    let mut reader = WaveReader::new(&segment);
    let mut writer = WaveWriter::with_capacity(3);
    let status = writer.write(&mut reader);
    assert_eq!(status, WriteStatus::Full);
    assert_eq!(reader.remaining(), 1);
    assert_eq!(writer.into_buffer(), vec![10, 20, 30]);
}

#[test]
fn batch_write_concatenates_skips_empty_and_truncates() {
    // An empty reader, one of 3 samples, one of 5, into 6 slots: the 3
    // samples of the second reader, then the first 3 of the third, report
    // Full, and the third reader keeps its last 2 samples.
    let empty: [i16; 0] = [];
    let three = [1i16, 2, 3];
    let five = [4i16, 5, 6, 7, 8];
    let mut readers = vec![
        WaveReader::new(&empty),
        WaveReader::new(&three),
        WaveReader::new(&five),
    ];
    let mut writer = WaveWriter::with_capacity(6);
    let status = writer.batch_write(&mut readers);
    assert_eq!(status, WriteStatus::Full);
    assert_eq!(readers[0].remaining(), 0);
    assert_eq!(readers[1].remaining(), 0);
    assert_eq!(readers[2].remaining(), 2);
    assert_eq!(writer.into_buffer(), vec![1, 2, 3, 4, 5, 6]);
}

#[test]
fn batch_write_with_spare_room_reports_remaining() {
    let a = [1i16, 2];
    let b = [3i16];
    let mut readers = vec![WaveReader::new(&a), WaveReader::new(&b)];
    let mut writer = WaveWriter::with_capacity(10);
    let status = writer.batch_write(&mut readers);
    assert_eq!(status, WriteStatus::Remaining(7));
    assert_eq!(readers[0].remaining(), 0);
    assert_eq!(readers[1].remaining(), 0);
    let out = writer.into_buffer();
    assert_eq!(&out[..3], &[1, 2, 3]);
    assert_eq!(&out[3..], &[0i16; 7]);
}

#[test]
fn batch_write_into_full_writer_touches_nothing() {
    let a = [1i16, 2];
    let mut readers = vec![WaveReader::new(&a)];
    let mut writer = WaveWriter::with_capacity(0);
    let status = writer.batch_write(&mut readers);
    assert_eq!(status, WriteStatus::Full);
    assert_eq!(readers[0].remaining(), 2);
    assert_eq!(writer.into_buffer(), Vec::<i16>::new());
}
