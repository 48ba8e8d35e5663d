use tskv_wal::codec::{read_footer, Precision, WalEntry};
use tskv_wal::reader::WalReader;
use tskv_wal::writer::{closing_max_sequence, WalWriter};
use tskv_wal::WalError;

#[test]
fn test_closing_max_sequence_empty_segment() {
    // A segment that never received an entry closes at its minimum.
    assert_eq!(closing_max_sequence(5, 5), 5);
    assert_eq!(closing_max_sequence(1, 1), 1);
}

#[test]
fn test_closing_max_sequence_single_entry() {
    // One entry: the counter is one past it and is stepped back once.
    assert_eq!(closing_max_sequence(5, 6), 5);
    assert_eq!(closing_max_sequence(1, 2), 1);
}

#[test]
fn test_closing_max_sequence_many_entries() {
    assert_eq!(closing_max_sequence(1, 11), 10);
}

#[test]
fn test_writer_assigns_contiguous_sequences() {
    let mut w = WalWriter::open(1, 10);
    for i in 0..5u64 {
        let (seq, _size) = w.write(b"cnosdb", 0, Precision::NS, b"hello");
        assert_eq!(seq, 10 + i);
    }
    assert_eq!(w.max_sequence(), 15);
    assert_eq!(w.min_sequence(), 10);
}

#[test]
fn test_closed_segment_footer_ordered() {
    // Zero writes: the footer still parses, with min == max.
    let mut w = WalWriter::open(3, 7);
    let footer_len = w.close();
    assert_eq!(footer_len, 32);
    assert_eq!(read_footer(&w.buf), Some((7, 7)));

    // Three writes starting at 1: the footer records 1..=3.
    let mut w2 = WalWriter::open(4, 1);
    for _ in 0..3 {
        w2.write(b"t", 0, Precision::NS, b"p");
    }
    w2.close();
    let (mn, mx) = read_footer(&w2.buf).unwrap();
    assert_eq!((mn, mx), (1, 3));
    assert!(mn <= mx);
}

#[test]
fn test_writer_size_accounting() {
    let mut w = WalWriter::open(1, 1);
    assert_eq!(w.size(), 4); // segment magic
    let (_seq, grew) = w.write(b"ab", 0, Precision::NS, b"xyz");
    assert_eq!(grew, 4 + 22 + 2 + 3);
    assert_eq!(w.size(), 4 + 31);
    let footer_len = w.close();
    assert_eq!(w.size(), 4 + 31 + footer_len as u64);
}

#[test]
fn test_reader_reads_back_writes() {
    let mut w = WalWriter::open(1, 1);
    for i in 1..=10u64 {
        let payload = format!("payload-{}", i).into_bytes();
        w.write(b"cnosdb", 42, Precision::NS, &payload);
    }
    w.close();

    let mut rd = WalReader::open(w.buf).unwrap();
    assert_eq!(rd.min_sequence(), 1);
    assert_eq!(rd.max_sequence(), 10);
    for i in 1..=10u64 {
        let blk = rd.next_wal_entry().unwrap().unwrap();
        assert_eq!(blk.sequence, i);
        match blk.entry {
            WalEntry::Write(wr) => {
                assert_eq!(wr.vnode_id, 42);
                assert_eq!(wr.tenant, b"cnosdb".to_vec());
                assert_eq!(wr.points, format!("payload-{}", i).into_bytes());
            }
            _ => panic!("expected a write entry"),
        }
    }
    assert!(rd.next_wal_entry().unwrap().is_none());
}

#[test]
fn test_reader_no_footer_reports_zero_range() {
    let mut w = WalWriter::open(1, 5);
    w.write(b"t", 0, Precision::NS, b"p");
    // Not closed: no footer.
    let rd = WalReader::open(w.buf).unwrap();
    assert_eq!(rd.min_sequence(), 0);
    assert_eq!(rd.max_sequence(), 0);
}

#[test]
fn test_reader_rejects_missing_segment_magic() {
    match WalReader::open(vec![1, 2, 3, 4, 5]) {
        Err(e) => assert_eq!(e, WalError::InvalidSegmentHeader),
        Ok(_) => panic!("expected a header error"),
    }
    match WalReader::open(Vec::new()) {
        Err(e) => assert_eq!(e, WalError::InvalidSegmentHeader),
        Ok(_) => panic!("expected a header error"),
    }
}

#[test]
fn test_read_truncated() {
    // Ten full records, then a frame whose declared length exceeds the
    // bytes that follow it, as a crash mid-append leaves behind.
    let mut w = WalWriter::open(1, 1);
    for i in 1..=10u64 {
        let payload = format!("{}", i).into_bytes();
        w.write(b"cnosdb", 0, Precision::NS, &payload);
    }
    let mut bytes = w.buf;
    bytes.extend_from_slice(&[0, 0, 0, 100]); // declares 100 bytes
    bytes.extend_from_slice(&[1, 2, 3]); // only three are there

    let mut rd = WalReader::open(bytes).unwrap();
    for i in 1..=10u64 {
        let blk = rd.next_wal_entry().unwrap().unwrap();
        assert_eq!(blk.sequence, i);
    }
    // The truncated tail is reported as truncation, not as success and not
    // as a structural decode error.
    match rd.next_wal_entry() {
        Err(e) => assert_eq!(e, WalError::WalTruncated),
        Ok(_) => panic!("expected truncation"),
    }
    // And again: the reader does not move past it.
    match rd.next_wal_entry() {
        Err(e) => assert_eq!(e, WalError::WalTruncated),
        Ok(_) => panic!("expected truncation"),
    }
}

#[test]
fn test_read_truncated_short_frame() {
    // A tail shorter than a frame header is also truncation.
    let mut w = WalWriter::open(1, 1);
    w.write(b"t", 0, Precision::NS, b"p");
    let mut bytes = w.buf;
    bytes.extend_from_slice(&[0, 0]);
    let mut rd = WalReader::open(bytes).unwrap();
    assert!(rd.next_wal_entry().unwrap().is_some());
    match rd.next_wal_entry() {
        Err(e) => assert_eq!(e, WalError::WalTruncated),
        Ok(_) => panic!("expected truncation"),
    }
}

#[test]
fn test_reader_reports_structural_error() {
    // A complete frame whose entry declares more tenant bytes than the
    // frame holds: a structural decode error, distinct from truncation.
    let mut w = WalWriter::open(1, 1);
    w.write(b"abcd", 0, Precision::NS, b"");
    let mut bytes = w.buf;
    // The entry is 26 bytes: frame at 4..8, entry at 8..34; its tenant
    // size field ends at offset 8 + 21.
    bytes[8 + 21] = 200;
    let mut rd = WalReader::open(bytes).unwrap();
    match rd.next_wal_entry() {
        Err(e) => assert_eq!(e, WalError::Decode),
        Ok(_) => panic!("expected a decode error"),
    }
}
