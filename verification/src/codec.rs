//! On-disk byte layout of log entries and of the segment footer.
//!
//! Every entry starts with a nine-byte header: a one-byte type tag followed
//! by the eight big-endian bytes of the entry's sequence number.  The bytes
//! after the header depend on the type:
//!
//! * `Write`: vnode id (4), precision (1), tenant size (8), tenant bytes,
//!   then the opaque point payload up to the end of the entry.
//! * `DeleteVnode`: vnode id (4), tenant size (8), tenant bytes, then the
//!   database name up to the end of the entry.
//! * `DeleteTable`: tenant size (8), database size (4), tenant bytes,
//!   database bytes, then the table name up to the end of the entry.
//!
//! A cleanly closed segment ends in a 32-byte footer: a four-byte magic,
//! twelve padding bytes, then the minimum and maximum sequence numbers of
//! the segment, each as eight big-endian bytes.

use vstd::prelude::*;

use crate::bytes::{
    get_u32_be, get_u64_be, lemma_be_u32_round_trip, lemma_be_u64_round_trip,
    lemma_u32_be_round_trip, lemma_u64_be_round_trip, put_u32_be, put_u64_be, spec_be_u32,
    spec_be_u64, spec_u32_be, spec_u64_be,
};
use crate::WalError;

verus! {

/// Length of the fixed entry header: type tag plus sequence number.
pub const ENTRY_HEADER_LEN: usize = 9;

/// Length of the footer that closes a segment.
pub const FOOTER_LEN: usize = 32;

/// Length of the magic bytes at the start of every segment file.
pub const SEGMENT_HEADER_LEN: usize = 4;

/// Length of the record frame put before every entry.
pub const RECORD_FRAME_LEN: usize = 4;

/// Type tag of a point-write entry.
pub const WRITE_TAG: u8 = 1;

/// Type tag of a vnode-deletion entry.
pub const DELETE_VNODE_TAG: u8 = 11;

/// Type tag of a table-deletion entry.
pub const DELETE_TABLE_TAG: u8 = 21;

/// Type tag reserved for unrecognized entries; never written by the encoder.
pub const UNKNOWN_TAG: u8 = 127;

/// The kind of a log entry, as stored in the first byte of its header.
///
/// `Unknown` is produced only by the decoder, for a tag byte it does not
/// recognize; the encoder never writes it.
#[derive(Eq, PartialEq, Clone, Copy, Debug, Structural)]
pub enum WalEntryType {
    Write,
    DeleteVnode,
    DeleteTable,
    Unknown,
}

/// The entry type denoted by a tag byte.
pub open spec fn spec_entry_type_of(tag: u8) -> WalEntryType {
    if tag == WRITE_TAG {
        WalEntryType::Write
    } else if tag == DELETE_VNODE_TAG {
        WalEntryType::DeleteVnode
    } else if tag == DELETE_TABLE_TAG {
        WalEntryType::DeleteTable
    } else {
        WalEntryType::Unknown
    }
}

impl From<u8> for WalEntryType {
    fn from(tag: u8) -> (r: WalEntryType) {
        if tag == WRITE_TAG {
            WalEntryType::Write
        } else if tag == DELETE_VNODE_TAG {
            WalEntryType::DeleteVnode
        } else if tag == DELETE_TABLE_TAG {
            WalEntryType::DeleteTable
        } else {
            WalEntryType::Unknown
        }
    }
}

impl WalEntryType {
    /// The entry type's name, as diagnostics print it.
    pub fn display_str(&self) -> (r: &'static str)
        ensures
            r@ == match self {
                WalEntryType::Write => "write"@,
                WalEntryType::DeleteVnode => "delete_vnode"@,
                WalEntryType::DeleteTable => "delete_table"@,
                WalEntryType::Unknown => "unknown"@,
            },
    {
        match self {
            WalEntryType::Write => "write",
            WalEntryType::DeleteVnode => "delete_vnode",
            WalEntryType::DeleteTable => "delete_table",
            WalEntryType::Unknown => "unknown",
        }
    }
}

impl vstd::std_specs::convert::FromSpecImpl<u8> for WalEntryType {
    open spec fn obeys_from_spec() -> bool {
        true
    }

    open spec fn from_spec(tag: u8) -> WalEntryType {
        spec_entry_type_of(tag)
    }
}

/// Identifier of a vnode, the unit that point writes are addressed to.
pub type VnodeId = u32;

/// Time precision of the points carried by a write entry, stored as one
/// byte after the vnode id.
#[derive(Eq, PartialEq, Clone, Copy, Debug, Structural)]
pub enum Precision {
    MS,
    US,
    NS,
}

/// The byte that stands for a precision on disk.
pub open spec fn spec_precision_tag(p: Precision) -> u8 {
    match p {
        Precision::MS => 0,
        Precision::US => 1,
        Precision::NS => 2,
    }
}

/// The precision denoted by a stored byte; unrecognized bytes fall back to
/// nanoseconds.
pub open spec fn spec_precision_of(tag: u8) -> Precision {
    if tag == 0 {
        Precision::MS
    } else if tag == 1 {
        Precision::US
    } else {
        Precision::NS
    }
}

impl Precision {
    /// The byte that stands for this precision on disk.
    pub fn to_u8(self) -> (r: u8)
        ensures
            r == spec_precision_tag(self),
    {
        match self {
            Precision::MS => 0,
            Precision::US => 1,
            Precision::NS => 2,
        }
    }

    /// The precision denoted by a stored byte; unrecognized bytes fall back
    /// to nanoseconds.
    pub fn of_u8(tag: u8) -> (r: Precision)
        ensures
            r == spec_precision_of(tag),
    {
        if tag == 0 {
            Precision::MS
        } else if tag == 1 {
            Precision::US
        } else {
            Precision::NS
        }
    }
}

/// Reading a precision byte back yields the precision it was written for.
pub proof fn lemma_precision_round_trip(p: Precision)
    ensures
        spec_precision_of(spec_precision_tag(p)) == p,
{
}

/// The bytes of a point-write entry: header, vnode id, precision byte,
/// tenant size, tenant, then the opaque payload.
pub open spec fn spec_write_entry(
    sequence: u64,
    vnode_id: VnodeId,
    precision: u8,
    tenant: Seq<u8>,
    points: Seq<u8>,
) -> Seq<u8> {
    seq![WRITE_TAG] + spec_u64_be(sequence) + spec_u32_be(vnode_id) + seq![precision]
        + spec_u64_be(tenant.len() as u64) + tenant + points
}

/// The bytes of a vnode-deletion entry: header, vnode id, tenant size,
/// tenant, then the database name.
pub open spec fn spec_delete_vnode_entry(
    sequence: u64,
    vnode_id: VnodeId,
    tenant: Seq<u8>,
    database: Seq<u8>,
) -> Seq<u8> {
    seq![DELETE_VNODE_TAG] + spec_u64_be(sequence) + spec_u32_be(vnode_id)
        + spec_u64_be(tenant.len() as u64) + tenant + database
}

/// The bytes of a table-deletion entry: header, tenant size, database size,
/// tenant, database, then the table name.
pub open spec fn spec_delete_table_entry(
    sequence: u64,
    tenant: Seq<u8>,
    database: Seq<u8>,
    table: Seq<u8>,
) -> Seq<u8> {
    seq![DELETE_TABLE_TAG] + spec_u64_be(sequence) + spec_u64_be(tenant.len() as u64)
        + spec_u32_be(database.len() as u32) + tenant + database + table
}

/// Appends every byte of `src` to `dst`.
pub fn extend_bytes(dst: &mut Vec<u8>, src: &[u8])
    ensures
        final(dst)@ == old(dst)@ + src@,
{
    let mut i: usize = 0;
    while i < src.len()
        invariant
            i <= src@.len(),
            dst@ == old(dst)@ + src@.subrange(0, i as int),
        decreases src@.len() - i,
    {
        dst.push(src[i]);
        i = i + 1;
        proof {
            assert(dst@ =~= old(dst)@ + src@.subrange(0, i as int));
        }
    }
    proof {
        assert(src@.subrange(0, src@.len() as int) =~= src@);
    }
}

/// Copies the bytes of `src` between `lo` and `hi` into a fresh vector.
pub fn copy_range(src: &[u8], lo: usize, hi: usize) -> (r: Vec<u8>)
    requires
        lo <= hi <= src@.len(),
    ensures
        r@ == src@.subrange(lo as int, hi as int),
{
    let mut r: Vec<u8> = Vec::new();
    let mut i: usize = lo;
    while i < hi
        invariant
            lo <= i <= hi <= src@.len(),
            r@ == src@.subrange(lo as int, i as int),
        decreases hi - i,
    {
        r.push(src[i]);
        i = i + 1;
        proof {
            assert(r@ =~= src@.subrange(lo as int, i as int));
        }
    }
    r
}

/// Encodes a point-write entry.
pub fn encode_write_entry(
    sequence: u64,
    vnode_id: VnodeId,
    precision: Precision,
    tenant: &[u8],
    points: &[u8],
) -> (r: Vec<u8>)
    ensures
        r@ == spec_write_entry(
            sequence,
            vnode_id,
            spec_precision_tag(precision),
            tenant@,
            points@,
        ),
        r@.len() == 22 + tenant@.len() + points@.len(),
{
    let mut r: Vec<u8> = Vec::new();
    r.push(WRITE_TAG);
    put_u64_be(&mut r, sequence);
    put_u32_be(&mut r, vnode_id);
    r.push(precision.to_u8());
    put_u64_be(&mut r, tenant.len() as u64);
    extend_bytes(&mut r, tenant);
    extend_bytes(&mut r, points);
    proof {
        assert(r@ =~= spec_write_entry(
            sequence,
            vnode_id,
            spec_precision_tag(precision),
            tenant@,
            points@,
        ));
    }
    r
}

/// Encodes a vnode-deletion entry.
pub fn encode_delete_vnode_entry(
    sequence: u64,
    vnode_id: VnodeId,
    tenant: &[u8],
    database: &[u8],
) -> (r: Vec<u8>)
    ensures
        r@ == spec_delete_vnode_entry(sequence, vnode_id, tenant@, database@),
        r@.len() == 21 + tenant@.len() + database@.len(),
{
    let mut r: Vec<u8> = Vec::new();
    r.push(DELETE_VNODE_TAG);
    put_u64_be(&mut r, sequence);
    put_u32_be(&mut r, vnode_id);
    put_u64_be(&mut r, tenant.len() as u64);
    extend_bytes(&mut r, tenant);
    extend_bytes(&mut r, database);
    proof {
        assert(r@ =~= spec_delete_vnode_entry(sequence, vnode_id, tenant@, database@));
    }
    r
}

/// Encodes a table-deletion entry.
pub fn encode_delete_table_entry(
    sequence: u64,
    tenant: &[u8],
    database: &[u8],
    table: &[u8],
) -> (r: Vec<u8>)
    requires
        database@.len() <= u32::MAX,
    ensures
        r@ == spec_delete_table_entry(sequence, tenant@, database@, table@),
        r@.len() == 21 + tenant@.len() + database@.len() + table@.len(),
{
    let mut r: Vec<u8> = Vec::new();
    r.push(DELETE_TABLE_TAG);
    put_u64_be(&mut r, sequence);
    put_u64_be(&mut r, tenant.len() as u64);
    put_u32_be(&mut r, database.len() as u32);
    extend_bytes(&mut r, tenant);
    extend_bytes(&mut r, database);
    extend_bytes(&mut r, table);
    proof {
        assert(r@ =~= spec_delete_table_entry(sequence, tenant@, database@, table@));
    }
    r
}

/// The fields of a decoded point-write entry.
pub struct WriteBlock {
    pub vnode_id: VnodeId,
    pub precision: Precision,
    pub tenant: Vec<u8>,
    pub points: Vec<u8>,
}

/// The fields of a decoded vnode-deletion entry.
pub struct DeleteVnodeBlock {
    pub vnode_id: VnodeId,
    pub tenant: Vec<u8>,
    pub database: Vec<u8>,
}

/// The fields of a decoded table-deletion entry.
pub struct DeleteTableBlock {
    pub tenant: Vec<u8>,
    pub database: Vec<u8>,
    pub table: Vec<u8>,
}

/// The type-specific fields of a decoded entry.
pub enum WalEntry {
    Write(WriteBlock),
    DeleteVnode(DeleteVnodeBlock),
    DeleteTable(DeleteTableBlock),
    Unknown,
}

/// One decoded entry: its type, its sequence number, and its fields.
pub struct WalEntryBlock {
    pub typ: WalEntryType,
    pub sequence: u64,
    pub entry: WalEntry,
}

/// Structural integrity of entry bytes: the header is present and the
/// declared field sizes do not exceed the bytes that are there.
pub open spec fn spec_entry_valid(b: Seq<u8>) -> bool {
    &&& b.len() >= ENTRY_HEADER_LEN
    &&& b[0] == WRITE_TAG ==> b.len() >= 22 && 22 + spec_be_u64(b.subrange(14, 22)) <= b.len()
    &&& b[0] == DELETE_VNODE_TAG ==> b.len() >= 21 && 21 + spec_be_u64(b.subrange(13, 21))
        <= b.len()
    &&& b[0] == DELETE_TABLE_TAG ==> b.len() >= 21 && 21 + spec_be_u64(b.subrange(9, 17))
        + spec_be_u32(b.subrange(17, 21)) <= b.len()
}

/// The decoded block `blk` holds exactly the fields encoded in `b`: the
/// type named by the tag byte, the header sequence, and fields that
/// re-encode to `b` itself.
pub open spec fn spec_block_matches(b: Seq<u8>, blk: WalEntryBlock) -> bool {
    &&& blk.typ == spec_entry_type_of(b[0])
    &&& blk.sequence == spec_be_u64(b.subrange(1, 9))
    &&& match blk.entry {
        WalEntry::Write(w) => b == spec_write_entry(
            blk.sequence,
            w.vnode_id,
            b[13],
            w.tenant@,
            w.points@,
        ) && w.precision == spec_precision_of(b[13]),
        WalEntry::DeleteVnode(d) => b == spec_delete_vnode_entry(
            blk.sequence,
            d.vnode_id,
            d.tenant@,
            d.database@,
        ),
        WalEntry::DeleteTable(d) => b == spec_delete_table_entry(
            blk.sequence,
            d.tenant@,
            d.database@,
            d.table@,
        ) && d.database@.len() <= u32::MAX,
        WalEntry::Unknown => b[0] != WRITE_TAG && b[0] != DELETE_VNODE_TAG && b[0]
            != DELETE_TABLE_TAG,
    }
}

/// Decodes one entry from exactly the bytes that were framed for it.
/// Succeeds if and only if the bytes are structurally sound; the decoded
/// fields then re-encode to the input bytes.
pub fn decode_entry(b: &[u8]) -> (r: Result<WalEntryBlock, WalError>)
    ensures
        r is Ok <==> spec_entry_valid(b@),
        r matches Ok(blk) ==> spec_block_matches(b@, blk),
        r matches Err(e) ==> e == WalError::Decode,
{
    let n = b.len();
    if n < ENTRY_HEADER_LEN {
        return Err(WalError::Decode);
    }
    let tag = b[0];
    let sequence = get_u64_be(b, 1);
    if tag == WRITE_TAG {
        if n < 22 {
            return Err(WalError::Decode);
        }
        let vnode_id = get_u32_be(b, 9);
        let prec_tag = b[13];
        let tenant_size = get_u64_be(b, 14);
        if tenant_size > (n - 22) as u64 {
            return Err(WalError::Decode);
        }
        let ts = tenant_size as usize;
        let tenant = copy_range(b, 22, 22 + ts);
        let points = copy_range(b, 22 + ts, n);
        proof {
            let bs = b@;
            lemma_be_u64_round_trip(bs.subrange(1, 9));
            lemma_be_u32_round_trip(bs.subrange(9, 13));
            lemma_be_u64_round_trip(bs.subrange(14, 22));
            assert(bs =~= seq![WRITE_TAG] + bs.subrange(1, 9) + bs.subrange(9, 13)
                + seq![bs[13]] + bs.subrange(14, 22) + bs.subrange(22, 22 + ts as int)
                + bs.subrange(22 + ts as int, n as int));
        }
        Ok(WalEntryBlock {
            typ: WalEntryType::Write,
            sequence,
            entry: WalEntry::Write(WriteBlock {
                vnode_id,
                precision: Precision::of_u8(prec_tag),
                tenant,
                points,
            }),
        })
    } else if tag == DELETE_VNODE_TAG {
        if n < 21 {
            return Err(WalError::Decode);
        }
        let vnode_id = get_u32_be(b, 9);
        let tenant_size = get_u64_be(b, 13);
        if tenant_size > (n - 21) as u64 {
            return Err(WalError::Decode);
        }
        let ts = tenant_size as usize;
        let tenant = copy_range(b, 21, 21 + ts);
        let database = copy_range(b, 21 + ts, n);
        proof {
            let bs = b@;
            lemma_be_u64_round_trip(bs.subrange(1, 9));
            lemma_be_u32_round_trip(bs.subrange(9, 13));
            lemma_be_u64_round_trip(bs.subrange(13, 21));
            assert(bs =~= seq![DELETE_VNODE_TAG] + bs.subrange(1, 9) + bs.subrange(9, 13)
                + bs.subrange(13, 21) + bs.subrange(21, 21 + ts as int)
                + bs.subrange(21 + ts as int, n as int));
        }
        Ok(WalEntryBlock {
            typ: WalEntryType::DeleteVnode,
            sequence,
            entry: WalEntry::DeleteVnode(DeleteVnodeBlock { vnode_id, tenant, database }),
        })
    } else if tag == DELETE_TABLE_TAG {
        if n < 21 {
            return Err(WalError::Decode);
        }
        let tenant_size = get_u64_be(b, 9);
        let database_size = get_u32_be(b, 17);
        if tenant_size > (n - 21) as u64 {
            return Err(WalError::Decode);
        }
        let ts = tenant_size as usize;
        if (database_size as u64) > ((n - 21 - ts) as u64) {
            return Err(WalError::Decode);
        }
        let ds = database_size as usize;
        let tenant = copy_range(b, 21, 21 + ts);
        let database = copy_range(b, 21 + ts, 21 + ts + ds);
        let table = copy_range(b, 21 + ts + ds, n);
        proof {
            let bs = b@;
            lemma_be_u64_round_trip(bs.subrange(1, 9));
            lemma_be_u64_round_trip(bs.subrange(9, 17));
            lemma_be_u32_round_trip(bs.subrange(17, 21));
            assert(database@.len() as u32 == database_size);
            assert(bs =~= seq![DELETE_TABLE_TAG] + bs.subrange(1, 9) + bs.subrange(9, 17)
                + bs.subrange(17, 21) + bs.subrange(21, 21 + ts as int)
                + bs.subrange(21 + ts as int, 21 + ts as int + ds as int)
                + bs.subrange(21 + ts as int + ds as int, n as int));
        }
        Ok(WalEntryBlock {
            typ: WalEntryType::DeleteTable,
            sequence,
            entry: WalEntry::DeleteTable(DeleteTableBlock { tenant, database, table }),
        })
    } else {
        Ok(WalEntryBlock { typ: WalEntryType::Unknown, sequence, entry: WalEntry::Unknown })
    }
}

/// Round trip for point-write entries: the encoded bytes are structurally
/// valid, and any decoded block that matches them carries exactly the
/// fields that were encoded.
pub proof fn lemma_write_entry_round_trip(
    sequence: u64,
    vnode_id: VnodeId,
    precision: Precision,
    tenant: Seq<u8>,
    points: Seq<u8>,
    blk: WalEntryBlock,
)
    requires
        tenant.len() + points.len() <= u64::MAX,
        spec_block_matches(
            spec_write_entry(sequence, vnode_id, spec_precision_tag(precision), tenant, points),
            blk,
        ),
    ensures
        spec_entry_valid(
            spec_write_entry(sequence, vnode_id, spec_precision_tag(precision), tenant, points),
        ),
        blk.typ == WalEntryType::Write,
        blk.sequence == sequence,
        blk.entry matches WalEntry::Write(w) && w.vnode_id == vnode_id && w.precision == precision
            && w.tenant@ == tenant && w.points@ == points,
{
    let e = spec_write_entry(sequence, vnode_id, spec_precision_tag(precision), tenant, points);
    assert(e.len() == 22 + tenant.len() + points.len());
    assert(e[0] == WRITE_TAG);
    assert(e.subrange(1, 9) =~= spec_u64_be(sequence));
    assert(e.subrange(9, 13) =~= spec_u32_be(vnode_id));
    assert(e[13] == spec_precision_tag(precision));
    assert(e.subrange(14, 22) =~= spec_u64_be(tenant.len() as u64));
    lemma_u64_be_round_trip(sequence);
    lemma_u64_be_round_trip(tenant.len() as u64);
    lemma_u32_be_round_trip(vnode_id);
    assert(spec_entry_valid(e));
    assert(blk.sequence == sequence);
    match blk.entry {
        WalEntry::Write(w) => {
            assert(e == spec_write_entry(blk.sequence, w.vnode_id, e[13], w.tenant@, w.points@));
            assert(e.subrange(9, 13) =~= spec_u32_be(w.vnode_id));
            lemma_u32_be_round_trip(w.vnode_id);
            assert(w.vnode_id == vnode_id);
            lemma_precision_round_trip(precision);
            assert(w.precision == precision);
            assert(e.len() == 22 + w.tenant@.len() + w.points@.len());
            assert(w.tenant@.len() <= u64::MAX);
            assert(e.subrange(14, 22) =~= spec_u64_be(w.tenant@.len() as u64));
            lemma_u64_be_round_trip(w.tenant@.len() as u64);
            assert(w.tenant@.len() as u64 == tenant.len() as u64);
            assert(w.tenant@.len() == tenant.len());
            assert(tenant =~= e.subrange(22, 22 + tenant.len() as int));
            assert(w.tenant@ =~= e.subrange(22, 22 + tenant.len() as int));
            assert(points =~= e.subrange(22 + tenant.len() as int, e.len() as int));
            assert(w.points@ =~= e.subrange(22 + tenant.len() as int, e.len() as int));
        },
        WalEntry::DeleteVnode(d) => {
            assert(e[0] == DELETE_VNODE_TAG);  // contradiction
        },
        WalEntry::DeleteTable(d) => {
            assert(e[0] == DELETE_TABLE_TAG);  // contradiction
        },
        WalEntry::Unknown => {
            assert(e[0] != WRITE_TAG);  // contradiction
        },
    }
}

/// Round trip for vnode-deletion entries.
pub proof fn lemma_delete_vnode_entry_round_trip(
    sequence: u64,
    vnode_id: VnodeId,
    tenant: Seq<u8>,
    database: Seq<u8>,
    blk: WalEntryBlock,
)
    requires
        tenant.len() + database.len() <= u64::MAX,
        spec_block_matches(spec_delete_vnode_entry(sequence, vnode_id, tenant, database), blk),
    ensures
        spec_entry_valid(spec_delete_vnode_entry(sequence, vnode_id, tenant, database)),
        blk.typ == WalEntryType::DeleteVnode,
        blk.sequence == sequence,
        blk.entry matches WalEntry::DeleteVnode(d) && d.vnode_id == vnode_id && d.tenant@ == tenant
            && d.database@ == database,
{
    let e = spec_delete_vnode_entry(sequence, vnode_id, tenant, database);
    assert(e.len() == 21 + tenant.len() + database.len());
    assert(e[0] == DELETE_VNODE_TAG);
    assert(e.subrange(1, 9) =~= spec_u64_be(sequence));
    assert(e.subrange(9, 13) =~= spec_u32_be(vnode_id));
    assert(e.subrange(13, 21) =~= spec_u64_be(tenant.len() as u64));
    lemma_u64_be_round_trip(sequence);
    lemma_u64_be_round_trip(tenant.len() as u64);
    lemma_u32_be_round_trip(vnode_id);
    assert(spec_entry_valid(e));
    match blk.entry {
        WalEntry::DeleteVnode(d) => {
            assert(e == spec_delete_vnode_entry(blk.sequence, d.vnode_id, d.tenant@, d.database@));
            assert(e.subrange(9, 13) =~= spec_u32_be(d.vnode_id));
            lemma_u32_be_round_trip(d.vnode_id);
            assert(e.len() == 21 + d.tenant@.len() + d.database@.len());
            assert(d.tenant@.len() <= u64::MAX);
            assert(e.subrange(13, 21) =~= spec_u64_be(d.tenant@.len() as u64));
            lemma_u64_be_round_trip(d.tenant@.len() as u64);
            assert(d.tenant@.len() as u64 == tenant.len() as u64);
            assert(d.tenant@.len() == tenant.len());
            assert(tenant =~= e.subrange(21, 21 + tenant.len() as int));
            assert(d.tenant@ =~= e.subrange(21, 21 + tenant.len() as int));
            assert(database =~= e.subrange(21 + tenant.len() as int, e.len() as int));
            assert(d.database@ =~= e.subrange(21 + tenant.len() as int, e.len() as int));
        },
        WalEntry::Write(w) => {
            assert(e[0] == WRITE_TAG);  // contradiction
        },
        WalEntry::DeleteTable(d) => {
            assert(e[0] == DELETE_TABLE_TAG);  // contradiction
        },
        WalEntry::Unknown => {
            assert(e[0] != DELETE_VNODE_TAG);  // contradiction
        },
    }
}

/// Round trip for table-deletion entries.
pub proof fn lemma_delete_table_entry_round_trip(
    sequence: u64,
    tenant: Seq<u8>,
    database: Seq<u8>,
    table: Seq<u8>,
    blk: WalEntryBlock,
)
    requires
        tenant.len() + database.len() + table.len() <= u64::MAX,
        database.len() <= u32::MAX,
        spec_block_matches(spec_delete_table_entry(sequence, tenant, database, table), blk),
    ensures
        spec_entry_valid(spec_delete_table_entry(sequence, tenant, database, table)),
        blk.typ == WalEntryType::DeleteTable,
        blk.sequence == sequence,
        blk.entry matches WalEntry::DeleteTable(d) && d.tenant@ == tenant && d.database@ == database
            && d.table@ == table,
{
    let e = spec_delete_table_entry(sequence, tenant, database, table);
    assert(e.len() == 21 + tenant.len() + database.len() + table.len());
    assert(e[0] == DELETE_TABLE_TAG);
    assert(e.subrange(1, 9) =~= spec_u64_be(sequence));
    assert(e.subrange(9, 17) =~= spec_u64_be(tenant.len() as u64));
    assert(e.subrange(17, 21) =~= spec_u32_be(database.len() as u32));
    lemma_u64_be_round_trip(sequence);
    lemma_u64_be_round_trip(tenant.len() as u64);
    lemma_u32_be_round_trip(database.len() as u32);
    assert(spec_entry_valid(e));
    match blk.entry {
        WalEntry::DeleteTable(d) => {
            assert(e == spec_delete_table_entry(blk.sequence, d.tenant@, d.database@, d.table@));
            assert(e.len() == 21 + d.tenant@.len() + d.database@.len() + d.table@.len());
            assert(d.tenant@.len() <= u64::MAX);
            assert(d.database@.len() <= u64::MAX);
            assert(e.subrange(9, 17) =~= spec_u64_be(d.tenant@.len() as u64));
            lemma_u64_be_round_trip(d.tenant@.len() as u64);
            assert(d.tenant@.len() as u64 == tenant.len() as u64);
            assert(d.tenant@.len() == tenant.len());
            assert(e.subrange(17, 21) =~= spec_u32_be(d.database@.len() as u32));
            lemma_u32_be_round_trip(d.database@.len() as u32);
            assert(d.database@.len() as u32 == database.len() as u32);
            assert(d.database@.len() == database.len());
            assert(tenant =~= e.subrange(21, 21 + tenant.len() as int));
            assert(d.tenant@ =~= e.subrange(21, 21 + tenant.len() as int));
            assert(database =~= e.subrange(
                21 + tenant.len() as int,
                21 + tenant.len() as int + database.len() as int,
            ));
            assert(d.database@ =~= e.subrange(
                21 + tenant.len() as int,
                21 + tenant.len() as int + database.len() as int,
            ));
            assert(table =~= e.subrange(21 + tenant.len() as int + database.len() as int, e.len() as int));
            assert(d.table@ =~= e.subrange(21 + tenant.len() as int + database.len() as int, e.len() as int));
        },
        WalEntry::Write(w) => {
            assert(e[0] == WRITE_TAG);  // contradiction
        },
        WalEntry::DeleteVnode(d) => {
            assert(e[0] == DELETE_VNODE_TAG);  // contradiction
        },
        WalEntry::Unknown => {
            assert(e[0] != DELETE_TABLE_TAG);  // contradiction
        },
    }
}

/// The magic bytes that open a footer, the letters of "walo".
pub open spec fn spec_footer_magic() -> Seq<u8> {
    seq![0x77u8, 0x61u8, 0x6cu8, 0x6fu8]
}

/// The magic bytes that open every segment file.
pub open spec fn spec_segment_magic() -> Seq<u8> {
    seq![0x57u8, 0x47u8, 0x4cu8, 0x00u8]
}

/// The 32 footer bytes for a segment covering `min_sequence` to
/// `max_sequence`.
pub open spec fn spec_footer(min_sequence: u64, max_sequence: u64) -> Seq<u8> {
    spec_footer_magic() + Seq::<u8>::new(12, |i: int| 0u8) + spec_u64_be(min_sequence)
        + spec_u64_be(max_sequence)
}

/// Encodes the footer of a segment covering `min_sequence` to
/// `max_sequence`.
pub fn encode_footer(min_sequence: u64, max_sequence: u64) -> (r: Vec<u8>)
    ensures
        r@ == spec_footer(min_sequence, max_sequence),
        r@.len() == FOOTER_LEN,
{
    let mut r: Vec<u8> = Vec::new();
    r.push(0x77u8);
    r.push(0x61u8);
    r.push(0x6cu8);
    r.push(0x6fu8);
    let mut i: usize = 0;
    while i < 12
        invariant
            i <= 12,
            r@ == spec_footer_magic() + Seq::<u8>::new(i as nat, |j: int| 0u8),
        decreases 12 - i,
    {
        r.push(0u8);
        i = i + 1;
        proof {
            assert(r@ =~= spec_footer_magic() + Seq::<u8>::new(i as nat, |j: int| 0u8));
        }
    }
    put_u64_be(&mut r, min_sequence);
    put_u64_be(&mut r, max_sequence);
    proof {
        assert(r@ =~= spec_footer(min_sequence, max_sequence));
    }
    r
}

/// Whether `file` ends in a parseable footer: it is long enough to hold the
/// segment header and a footer, and the footer magic stands where a footer
/// would begin.
pub open spec fn spec_has_footer(file: Seq<u8>) -> bool {
    file.len() >= SEGMENT_HEADER_LEN + FOOTER_LEN && file.subrange(
        file.len() - 32,
        file.len() - 28,
    ) == spec_footer_magic()
}

/// The minimum sequence recorded in the footer of `file`.
pub open spec fn spec_footer_min(file: Seq<u8>) -> u64
    recommends
        spec_has_footer(file),
{
    spec_be_u64(file.subrange(file.len() - 16, file.len() - 8))
}

/// The maximum sequence recorded in the footer of `file`.
pub open spec fn spec_footer_max(file: Seq<u8>) -> u64
    recommends
        spec_has_footer(file),
{
    spec_be_u64(file.subrange(file.len() - 8, file.len() as int))
}

/// Appending a footer to any segment bytes yields a file whose footer
/// parses back to the sequence range that was written.
pub proof fn lemma_footer_parse(file: Seq<u8>, min_sequence: u64, max_sequence: u64)
    requires
        file.len() >= SEGMENT_HEADER_LEN,
    ensures
        spec_has_footer(file + spec_footer(min_sequence, max_sequence)),
        spec_footer_min(file + spec_footer(min_sequence, max_sequence)) == min_sequence,
        spec_footer_max(file + spec_footer(min_sequence, max_sequence)) == max_sequence,
{
    let t = file + spec_footer(min_sequence, max_sequence);
    assert(t.len() == file.len() + 32);
    assert(t.subrange(t.len() - 32, t.len() - 28) =~= spec_footer_magic());
    assert(t.subrange(t.len() - 16, t.len() - 8) =~= spec_u64_be(min_sequence));
    assert(t.subrange(t.len() - 8, t.len() as int) =~= spec_u64_be(max_sequence));
    lemma_u64_be_round_trip(min_sequence);
    lemma_u64_be_round_trip(max_sequence);
}

/// Parses the footer at the end of a whole segment file.  Returns the
/// recorded minimum and maximum sequence numbers, or `None` when the file
/// does not end in a parseable footer.
pub fn read_footer(file: &[u8]) -> (r: Option<(u64, u64)>)
    ensures
        r is Some <==> spec_has_footer(file@),
        r matches Some((mn, mx)) ==> mn == spec_footer_min(file@) && mx == spec_footer_max(file@),
{
    let n = file.len();
    if n < SEGMENT_HEADER_LEN + FOOTER_LEN {
        return None;
    }
    if file[n - 32] == 0x77u8 && file[n - 31] == 0x61u8 && file[n - 30] == 0x6cu8
        && file[n - 29] == 0x6fu8 {
        proof {
            assert(file@.subrange(file@.len() - 32, file@.len() - 28) =~= spec_footer_magic());
        }
        let mn = get_u64_be(file, n - 16);
        let mx = get_u64_be(file, n - 8);
        Some((mn, mx))
    } else {
        proof {
            if spec_has_footer(file@) {
                let m = file@.subrange(file@.len() - 32, file@.len() - 28);
                assert(file@[file@.len() - 32] == m[0]);
                assert(file@[file@.len() - 31] == m[1]);
                assert(file@[file@.len() - 30] == m[2]);
                assert(file@[file@.len() - 29] == m[3]);
            }
        }
        None
    }
}

} // verus!
