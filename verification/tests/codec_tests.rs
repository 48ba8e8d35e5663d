use tskv_wal::codec::{
    decode_entry, encode_delete_table_entry, encode_delete_vnode_entry, encode_footer,
    encode_write_entry, read_footer, Precision, WalEntry, WalEntryType,
};
use tskv_wal::WalError;

#[test]
fn test_write_entry_exact_bytes() {
    let e = encode_write_entry(0x0102, 7, Precision::NS, b"ab", b"xyz");
    let mut expected: Vec<u8> = Vec::new();
    expected.push(1); // type tag
    expected.extend_from_slice(&[0, 0, 0, 0, 0, 0, 0x01, 0x02]); // sequence
    expected.extend_from_slice(&[0, 0, 0, 7]); // vnode id
    expected.push(2); // precision NS
    expected.extend_from_slice(&[0, 0, 0, 0, 0, 0, 0, 2]); // tenant size
    expected.extend_from_slice(b"ab");
    expected.extend_from_slice(b"xyz");
    assert_eq!(e, expected);
}

#[test]
fn test_write_entry_round_trip() {
    let e = encode_write_entry(42, 9, Precision::MS, b"cnosdb", b"payload-bytes");
    let blk = decode_entry(&e).unwrap();
    assert_eq!(blk.typ, WalEntryType::Write);
    assert_eq!(blk.sequence, 42);
    match blk.entry {
        WalEntry::Write(w) => {
            assert_eq!(w.vnode_id, 9);
            assert_eq!(w.precision, Precision::MS);
            assert_eq!(w.tenant, b"cnosdb".to_vec());
            assert_eq!(w.points, b"payload-bytes".to_vec());
        }
        _ => panic!("expected a write entry"),
    }
}

#[test]
fn test_delete_vnode_entry_round_trip() {
    let e = encode_delete_vnode_entry(7, 11, b"tenant-a", b"db-one");
    let blk = decode_entry(&e).unwrap();
    assert_eq!(blk.typ, WalEntryType::DeleteVnode);
    assert_eq!(blk.sequence, 7);
    match blk.entry {
        WalEntry::DeleteVnode(d) => {
            assert_eq!(d.vnode_id, 11);
            assert_eq!(d.tenant, b"tenant-a".to_vec());
            assert_eq!(d.database, b"db-one".to_vec());
        }
        _ => panic!("expected a vnode-deletion entry"),
    }
}

#[test]
fn test_delete_table_entry_round_trip() {
    let e = encode_delete_table_entry(900, b"tenant-b", b"db-two", b"table-three");
    let blk = decode_entry(&e).unwrap();
    assert_eq!(blk.typ, WalEntryType::DeleteTable);
    assert_eq!(blk.sequence, 900);
    match blk.entry {
        WalEntry::DeleteTable(d) => {
            assert_eq!(d.tenant, b"tenant-b".to_vec());
            assert_eq!(d.database, b"db-two".to_vec());
            assert_eq!(d.table, b"table-three".to_vec());
        }
        _ => panic!("expected a table-deletion entry"),
    }
}

#[test]
fn test_decode_empty_tenant_and_payload() {
    let e = encode_write_entry(1, 0, Precision::US, b"", b"");
    assert_eq!(e.len(), 22);
    let blk = decode_entry(&e).unwrap();
    match blk.entry {
        WalEntry::Write(w) => {
            assert_eq!(w.precision, Precision::US);
            assert!(w.tenant.is_empty());
            assert!(w.points.is_empty());
        }
        _ => panic!("expected a write entry"),
    }
}

#[test]
fn test_decode_rejects_short_header() {
    let b = [1u8, 0, 0, 0, 0];
    match decode_entry(&b) {
        Err(e) => assert_eq!(e, WalError::Decode),
        Ok(_) => panic!("expected a decode error"),
    }
}

#[test]
fn test_decode_rejects_oversized_tenant() {
    let mut e = encode_write_entry(3, 1, Precision::NS, b"abcd", b"");
    // Declare a tenant larger than the bytes that are there.
    e[21] = 200;
    match decode_entry(&e) {
        Err(err) => assert_eq!(err, WalError::Decode),
        Ok(_) => panic!("expected a decode error"),
    }
}

#[test]
fn test_decode_rejects_oversized_table_sizes() {
    let mut e = encode_delete_table_entry(3, b"t", b"d", b"tbl");
    // Declare a database larger than the remaining bytes.
    e[20] = 255;
    match decode_entry(&e) {
        Err(err) => assert_eq!(err, WalError::Decode),
        Ok(_) => panic!("expected a decode error"),
    }
}

#[test]
fn test_decode_unknown_tag() {
    let mut b = vec![0u8; 9];
    b[0] = 77; // no known tag
    b[8] = 5; // sequence 5
    let blk = decode_entry(&b).unwrap();
    assert_eq!(blk.typ, WalEntryType::Unknown);
    assert_eq!(blk.sequence, 5);
    assert!(matches!(blk.entry, WalEntry::Unknown));
}

#[test]
fn test_entry_type_from_tag() {
    assert_eq!(WalEntryType::from(1), WalEntryType::Write);
    assert_eq!(WalEntryType::from(11), WalEntryType::DeleteVnode);
    assert_eq!(WalEntryType::from(21), WalEntryType::DeleteTable);
    assert_eq!(WalEntryType::from(0), WalEntryType::Unknown);
    assert_eq!(WalEntryType::from(127), WalEntryType::Unknown);
}

#[test]
fn test_entry_type_display_str() {
    assert_eq!(WalEntryType::Write.display_str(), "write");
    assert_eq!(WalEntryType::DeleteVnode.display_str(), "delete_vnode");
    assert_eq!(WalEntryType::DeleteTable.display_str(), "delete_table");
    assert_eq!(WalEntryType::Unknown.display_str(), "unknown");
}

#[test]
fn test_footer_exact_bytes_and_round_trip() {
    let f = encode_footer(5, 9);
    assert_eq!(f.len(), 32);
    assert_eq!(&f[0..4], b"walo");
    assert_eq!(&f[4..16], &[0u8; 12]);
    assert_eq!(&f[16..24], &[0, 0, 0, 0, 0, 0, 0, 5]);
    assert_eq!(&f[24..32], &[0, 0, 0, 0, 0, 0, 0, 9]);

    // A whole segment file: header, no entries, footer.
    let mut file = vec![0x57u8, 0x47, 0x4c, 0x00];
    file.extend_from_slice(&f);
    assert_eq!(read_footer(&file), Some((5, 9)));
}

#[test]
fn test_read_footer_absent_or_damaged() {
    // Too short to hold a header and a footer.
    assert_eq!(read_footer(&[0u8; 35]), None);
    // Long enough, but no magic where the footer would begin.
    assert_eq!(read_footer(&[0u8; 40]), None);
    // Damaged magic.
    let f = encode_footer(1, 2);
    let mut file = vec![0x57u8, 0x47, 0x4c, 0x00];
    file.extend_from_slice(&f);
    file[4 + 0] = b'W';
    assert_eq!(read_footer(&file), None);
}
