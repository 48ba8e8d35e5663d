use tskv_wal::codec::{read_footer, Precision, WalEntry};
use tskv_wal::manager::{GlobalSequenceContext, SegmentFile, WalManager, WalOptions, WalTask};
use tskv_wal::codec::WalEntryType;
use tskv_wal::reader::WalReader;
use tskv_wal::writer::WalWriter;

fn test_options(max_file_size: u64, flush_trigger_total_file_size: u64) -> WalOptions {
    WalOptions {
        max_file_size,
        flush_trigger_total_file_size,
        sync: false,
        sync_interval_millis: 1000,
    }
}

/// A cleanly closed segment holding `count` writes starting at `start`.
fn closed_segment(id: u64, start: u64, count: u64) -> SegmentFile {
    let mut w = WalWriter::open(id, start);
    for _ in 0..count {
        w.write(b"cnosdb", 0, Precision::NS, b"x");
    }
    w.close();
    SegmentFile { id, bytes: w.buf }
}

#[test]
fn test_read_and_write() {
    let tenant = b"cnosdb".to_vec();
    let mut mgr = WalManager::open(
        test_options(1024 * 1024, u64::MAX),
        GlobalSequenceContext::empty(),
        Vec::new(),
    );
    for i in 1..=10u64 {
        let data = b"hello".to_vec();
        let task = WalTask::new_write(tenant.clone(), 0, Precision::NS, data);
        let (seq, _size) = mgr.write(task);
        assert_eq!(i, seq);
    }
    let (footer_len, closed) = mgr.close();
    assert_eq!(footer_len, 32);

    let mut rd = WalReader::open(closed.buf).unwrap();
    for i in 1..=10u64 {
        let blk = rd.next_wal_entry().unwrap().unwrap();
        assert_eq!(blk.sequence, i);
        match blk.entry {
            WalEntry::Write(w) => {
                assert_eq!(w.tenant, b"cnosdb".to_vec());
                assert_eq!(w.points, b"hello".to_vec());
            }
            _ => panic!("expected a write entry"),
        }
    }
    assert!(rd.next_wal_entry().unwrap().is_none());
}

#[test]
fn test_roll_wal_file() {
    // A maximum segment size of one byte forces a roll before every write,
    // so every entry lands in a fresh segment; sequences at or above the
    // minimum still-needed sequence survive the deletion sweeps.
    let min_seq_no = 6u64;
    let mut gcs = GlobalSequenceContext::empty();
    gcs.set_min_seq(min_seq_no);
    let mut mgr = WalManager::open(test_options(1, 100), gcs, Vec::new());

    let tenant = b"cnosdb".to_vec();
    for seq in 1..=10u64 {
        let data = format!("{}", seq).into_bytes();
        let task = WalTask::new_write(tenant.clone(), 0, Precision::NS, data);
        let (write_seq, _size) = mgr.write(task);
        assert_eq!(seq, write_seq);
    }

    // Segments whose footer records a maximum below 6 have been deleted;
    // the survivors hold sequences 6 through 9, and the active segment
    // holds sequence 10.
    let table: Vec<(u64, u64)> = mgr.old_file_max_sequence.clone();
    assert_eq!(table, vec![(7, 6), (8, 7), (9, 8), (10, 9)]);
    assert_eq!(mgr.current_file.id, 11);

    // The running total is exactly the summed size of every segment file,
    // footers included.
    let sum: u64 = mgr.old_files.iter().map(|f| f.bytes.len() as u64).sum::<u64>()
        + mgr.current_file.buf.len() as u64;
    assert_eq!(mgr.total_file_size(), sum);
    assert_eq!(mgr.total_file_size(), 314);
    assert!(mgr.is_total_file_size_exceed());

    // Sweeping again with nothing written in between deletes nothing more.
    let before: Vec<u64> = mgr.old_files.iter().map(|f| f.id).collect();
    let total_before = mgr.total_file_size();
    mgr.check_to_delete();
    let after: Vec<u64> = mgr.old_files.iter().map(|f| f.id).collect();
    assert_eq!(before, after);
    assert_eq!(total_before, mgr.total_file_size());
}

#[test]
fn test_roll_creates_a_segment_per_write() {
    // With nothing deletable, ten writes under a one-byte maximum leave
    // ten closed segments and one final active segment.
    let mut mgr = WalManager::open(test_options(1, 100), GlobalSequenceContext::empty(), Vec::new());
    for seq in 1..=10u64 {
        let task = WalTask::new_write(b"cnosdb".to_vec(), 0, Precision::NS, vec![b'x']);
        let (write_seq, _size) = mgr.write(task);
        assert_eq!(seq, write_seq);
    }
    assert_eq!(mgr.old_files.len(), 10);
    assert_eq!(mgr.current_file.id, 11);
    let sum: u64 = mgr.old_files.iter().map(|f| f.bytes.len() as u64).sum::<u64>()
        + mgr.current_file.buf.len() as u64;
    assert_eq!(mgr.total_file_size(), sum);
}

#[test]
fn test_readers_to_recover_selection() {
    // Closed segments recording maximum sequences 3, 7 and 12; under a
    // minimum still-needed sequence of 8 only the one with 12 is replayed,
    // along with the (unclosed) active segment.
    let existing = vec![
        closed_segment(1, 1, 3),  // max 3
        closed_segment(2, 4, 4),  // max 7
        closed_segment(3, 8, 5),  // max 12
    ];
    assert_eq!(read_footer(&existing[0].bytes), Some((1, 3)));
    assert_eq!(read_footer(&existing[1].bytes), Some((4, 7)));
    assert_eq!(read_footer(&existing[2].bytes), Some((8, 12)));

    let mut gcs = GlobalSequenceContext::empty();
    gcs.set_min_seq(8);
    let mgr = WalManager::open(test_options(1024, 1024), gcs, existing);

    let readers = mgr.readers_to_recover().unwrap();
    assert_eq!(readers.len(), 2);
    assert_eq!(readers[0].max_sequence(), 12);
    // The active segment has no footer yet.
    assert_eq!(readers[1].max_sequence(), 0);
}

#[test]
fn test_restart_begins_a_new_segment() {
    // First run: sequences 1..=4 into segment 1, closed on shutdown.
    let mut mgr = WalManager::open(
        test_options(1024, 1024),
        GlobalSequenceContext::empty(),
        Vec::new(),
    );
    for _ in 0..4 {
        let task = WalTask::new_write(b"t".to_vec(), 0, Precision::NS, b"p".to_vec());
        mgr.write(task);
    }
    let (_n, closed) = mgr.close();
    assert_eq!(read_footer(&closed.buf), Some((1, 4)));
    let file = SegmentFile { id: closed.id, bytes: closed.buf };

    // Restart over the directory: a brand-new segment is begun, one past
    // the old file's id, continuing one past its recorded maximum.
    let mgr2 = WalManager::open(
        test_options(1024, 1024),
        GlobalSequenceContext::empty(),
        vec![file],
    );
    assert_eq!(mgr2.current_file.id, 2);
    assert_eq!(mgr2.current_seq_no(), 5);
}

#[test]
fn test_open_empty_starts_at_one() {
    let mgr = WalManager::open(
        test_options(1024, 1024),
        GlobalSequenceContext::empty(),
        Vec::new(),
    );
    assert_eq!(mgr.current_file.id, 1);
    assert_eq!(mgr.current_seq_no(), 1);
    assert_eq!(mgr.total_file_size(), 4); // the fresh segment's magic
}

#[test]
fn test_open_unclosed_highest_file_starts_at_two() {
    // The highest-numbered file has no footer: its bounds are unknown and
    // the new active segment starts at the fallback sequence plus one.
    let mut w = WalWriter::open(1, 1);
    w.write(b"t", 0, Precision::NS, b"p");
    let file = SegmentFile { id: 1, bytes: w.buf };
    let mgr = WalManager::open(
        test_options(1024, 1024),
        GlobalSequenceContext::empty(),
        vec![file],
    );
    assert_eq!(mgr.current_file.id, 2);
    assert_eq!(mgr.current_seq_no(), 2);
}

#[test]
fn test_write_all_entry_kinds() {
    let mut mgr = WalManager::open(
        test_options(1024 * 1024, u64::MAX),
        GlobalSequenceContext::empty(),
        Vec::new(),
    );
    let (s1, _) = mgr.write(WalTask::new_write(b"t".to_vec(), 3, Precision::MS, b"pp".to_vec()));
    let (s2, _) = mgr.write(WalTask::new_delete_vnode(b"t".to_vec(), b"db".to_vec(), 3));
    let (s3, _) = mgr.write(WalTask::new_delete_table(
        b"t".to_vec(),
        b"db".to_vec(),
        b"tbl".to_vec(),
    ));
    assert_eq!((s1, s2, s3), (1, 2, 3));

    let (_n, closed) = mgr.close();
    let mut rd = WalReader::open(closed.buf).unwrap();
    let b1 = rd.next_wal_entry().unwrap().unwrap();
    match b1.entry {
        WalEntry::Write(w) => {
            assert_eq!(w.vnode_id, 3);
            assert_eq!(w.precision, Precision::MS);
            assert_eq!(w.points, b"pp".to_vec());
        }
        _ => panic!("expected a write entry"),
    }
    let b2 = rd.next_wal_entry().unwrap().unwrap();
    match b2.entry {
        WalEntry::DeleteVnode(d) => {
            assert_eq!(d.vnode_id, 3);
            assert_eq!(d.database, b"db".to_vec());
        }
        _ => panic!("expected a vnode-deletion entry"),
    }
    let b3 = rd.next_wal_entry().unwrap().unwrap();
    match b3.entry {
        WalEntry::DeleteTable(d) => {
            assert_eq!(d.table, b"tbl".to_vec());
        }
        _ => panic!("expected a table-deletion entry"),
    }
    assert!(rd.next_wal_entry().unwrap().is_none());
}

#[test]
fn test_wal_entry_type_of_tasks() {
    let w = WalTask::new_write(b"t".to_vec(), 0, Precision::NS, b"p".to_vec());
    let dv = WalTask::new_delete_vnode(b"t".to_vec(), b"d".to_vec(), 0);
    let dt = WalTask::new_delete_table(b"t".to_vec(), b"d".to_vec(), b"x".to_vec());
    assert_eq!(w.wal_entry_type(), WalEntryType::Write);
    assert_eq!(dv.wal_entry_type(), WalEntryType::DeleteVnode);
    assert_eq!(dt.wal_entry_type(), WalEntryType::DeleteTable);
}

#[test]
fn test_total_size_threshold() {
    let mut mgr = WalManager::open(
        test_options(1024 * 1024, 30),
        GlobalSequenceContext::empty(),
        Vec::new(),
    );
    assert!(!mgr.is_total_file_size_exceed()); // 4 < 30
    mgr.write(WalTask::new_write(b"".to_vec(), 0, Precision::NS, b"".to_vec()));
    // 4 + 4 + 22 = 30: at the threshold counts as exceeded.
    assert_eq!(mgr.total_file_size(), 30);
    assert!(mgr.is_total_file_size_exceed());
    assert_eq!(mgr.sync_interval(), 1000);
}
