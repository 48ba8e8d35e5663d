//! The writer that owns one open segment.
//!
//! A writer assigns the next sequence number to each appended entry —
//! `max_sequence` always holds the sequence the *next* entry will get — and
//! keeps the segment's bytes: the segment magic, then one framed entry per
//! append, and finally the footer once the segment is closed.  Closing
//! converts the next-to-assign counter into the footer's maximum with
//! [`closing_max_sequence`], applied exactly once.

use vstd::prelude::*;

use crate::bytes::{put_u32_be, spec_u32_be};
use crate::codec::{
    encode_delete_table_entry, encode_delete_vnode_entry, encode_footer, encode_write_entry,
    extend_bytes, lemma_footer_parse, spec_delete_table_entry,
    spec_delete_vnode_entry, spec_footer, spec_footer_max, spec_footer_min, spec_has_footer,
    spec_precision_tag, spec_segment_magic, spec_write_entry, Precision, VnodeId, FOOTER_LEN,
    RECORD_FRAME_LEN,
};
use crate::reader::spec_segment_header_ok;

verus! {

/// The maximum sequence a closing segment records in its footer, computed
/// from its first sequence and its next-to-assign counter.  A segment that
/// never received an entry closes with its minimum; otherwise the counter
/// is one past the last entry actually written, and is stepped back once.
pub open spec fn spec_closing_max_sequence(min_sequence: u64, next_sequence: u64) -> u64 {
    if next_sequence <= min_sequence {
        min_sequence
    } else {
        (next_sequence - 1) as u64
    }
}

/// Exec form of [`spec_closing_max_sequence`].  The result never falls
/// below `min_sequence`, so a footer's range is always well ordered.
pub fn closing_max_sequence(min_sequence: u64, next_sequence: u64) -> (r: u64)
    ensures
        r == spec_closing_max_sequence(min_sequence, next_sequence),
        r >= min_sequence,
{
    if next_sequence <= min_sequence {
        min_sequence
    } else {
        next_sequence - 1
    }
}

/// The writer that owns one open segment.
pub struct WalWriter {
    /// The segment's file id.
    pub id: u64,
    /// The segment's bytes so far.
    pub buf: Vec<u8>,
    /// The first sequence number this segment covers.
    pub min_sequence: u64,
    /// The sequence number the next appended entry will be assigned.
    pub max_sequence: u64,
    /// Whether the footer has been written.
    pub closed: bool,
}

impl WalWriter {
    /// The writer's bytes begin with the segment magic, its sequence range
    /// is ordered, and once closed it ends in a footer recording that
    /// range.
    pub open spec fn wf(self) -> bool {
        &&& spec_segment_header_ok(self.buf@)
        &&& self.min_sequence <= self.max_sequence
        &&& self.closed ==> spec_has_footer(self.buf@) && spec_footer_min(self.buf@)
            == self.min_sequence && spec_footer_max(self.buf@) == self.max_sequence
    }

    /// Opens a fresh segment: only the segment magic is in it, and the
    /// first entry will be assigned `starting_sequence`.
    pub fn open(id: u64, starting_sequence: u64) -> (r: WalWriter)
        ensures
            r.wf(),
            r.id == id,
            r.min_sequence == starting_sequence,
            r.max_sequence == starting_sequence,
            !r.closed,
            r.buf@ == spec_segment_magic(),
    {
        let mut buf: Vec<u8> = Vec::new();
        buf.push(0x57u8);
        buf.push(0x47u8);
        buf.push(0x4cu8);
        buf.push(0x00u8);
        proof {
            assert(buf@ =~= spec_segment_magic());
            assert(buf@.subrange(0, 4) =~= buf@);
        }
        WalWriter { id, buf, min_sequence: starting_sequence, max_sequence: starting_sequence, closed: false }
    }

    /// The segment's file id.
    pub fn id(&self) -> (r: u64)
        ensures
            r == self.id,
    {
        self.id
    }

    /// The first sequence number this segment covers.
    pub fn min_sequence(&self) -> (r: u64)
        ensures
            r == self.min_sequence,
    {
        self.min_sequence
    }

    /// The sequence number the next appended entry will be assigned.
    pub fn max_sequence(&self) -> (r: u64)
        ensures
            r == self.max_sequence,
    {
        self.max_sequence
    }

    /// The segment's size in bytes.
    pub fn size(&self) -> (r: u64)
        ensures
            r == self.buf@.len(),
    {
        self.buf.len() as u64
    }

    /// Frames `entry` and appends it to the segment's bytes.
    fn append_record(&mut self, entry: Vec<u8>) -> (r: usize)
        requires
            RECORD_FRAME_LEN + entry@.len() <= u32::MAX,
        ensures
            final(self).buf@ == old(self).buf@ + spec_u32_be(entry@.len() as u32) + entry@,
            r == RECORD_FRAME_LEN + entry@.len(),
            final(self).id == old(self).id,
            final(self).min_sequence == old(self).min_sequence,
            final(self).max_sequence == old(self).max_sequence,
            final(self).closed == old(self).closed,
    {
        put_u32_be(&mut self.buf, entry.len() as u32);
        extend_bytes(&mut self.buf, entry.as_slice());
        RECORD_FRAME_LEN + entry.len()
    }

    /// Appends a point-write entry, assigning it the next sequence number.
    /// Returns the assigned sequence and the bytes the segment grew by.
    pub fn write(
        &mut self,
        tenant: &[u8],
        vnode_id: VnodeId,
        precision: Precision,
        points: &[u8],
    ) -> (r: (u64, usize))
        requires
            old(self).wf(),
            !old(self).closed,
            old(self).max_sequence < u64::MAX,
            RECORD_FRAME_LEN + 22 + tenant@.len() + points@.len() <= u32::MAX,
        ensures
            final(self).wf(),
            !final(self).closed,
            r.0 == old(self).max_sequence,
            r.1 == RECORD_FRAME_LEN + 22 + tenant@.len() + points@.len(),
            final(self).max_sequence == old(self).max_sequence + 1,
            final(self).id == old(self).id,
            final(self).min_sequence == old(self).min_sequence,
            final(self).buf@ == old(self).buf@ + spec_u32_be((22 + tenant@.len() + points@.len()) as u32)
                + spec_write_entry(
                old(self).max_sequence,
                vnode_id,
                spec_precision_tag(precision),
                tenant@,
                points@,
            ),
    {
        let sequence = self.max_sequence;
        let entry = encode_write_entry(sequence, vnode_id, precision, tenant, points);
        let written = self.append_record(entry);
        self.max_sequence = self.max_sequence + 1;
        proof {
            assert(self.buf@.subrange(0, 4) =~= old(self).buf@.subrange(0, 4));
        }
        (sequence, written)
    }

    /// Appends a vnode-deletion entry, assigning it the next sequence
    /// number.  Returns the assigned sequence and the bytes the segment
    /// grew by.
    pub fn delete_vnode(
        &mut self,
        tenant: &[u8],
        database: &[u8],
        vnode_id: VnodeId,
    ) -> (r: (u64, usize))
        requires
            old(self).wf(),
            !old(self).closed,
            old(self).max_sequence < u64::MAX,
            RECORD_FRAME_LEN + 21 + tenant@.len() + database@.len() <= u32::MAX,
        ensures
            final(self).wf(),
            !final(self).closed,
            r.0 == old(self).max_sequence,
            r.1 == RECORD_FRAME_LEN + 21 + tenant@.len() + database@.len(),
            final(self).max_sequence == old(self).max_sequence + 1,
            final(self).id == old(self).id,
            final(self).min_sequence == old(self).min_sequence,
            final(self).buf@ == old(self).buf@ + spec_u32_be(
                (21 + tenant@.len() + database@.len()) as u32,
            ) + spec_delete_vnode_entry(old(self).max_sequence, vnode_id, tenant@, database@),
    {
        let sequence = self.max_sequence;
        let entry = encode_delete_vnode_entry(sequence, vnode_id, tenant, database);
        let written = self.append_record(entry);
        self.max_sequence = self.max_sequence + 1;
        proof {
            assert(self.buf@.subrange(0, 4) =~= old(self).buf@.subrange(0, 4));
        }
        (sequence, written)
    }

    /// Appends a table-deletion entry, assigning it the next sequence
    /// number.  Returns the assigned sequence and the bytes the segment
    /// grew by.
    pub fn delete_table(
        &mut self,
        tenant: &[u8],
        database: &[u8],
        table: &[u8],
    ) -> (r: (u64, usize))
        requires
            old(self).wf(),
            !old(self).closed,
            old(self).max_sequence < u64::MAX,
            RECORD_FRAME_LEN + 21 + tenant@.len() + database@.len() + table@.len() <= u32::MAX,
        ensures
            final(self).wf(),
            !final(self).closed,
            r.0 == old(self).max_sequence,
            r.1 == RECORD_FRAME_LEN + 21 + tenant@.len() + database@.len() + table@.len(),
            final(self).max_sequence == old(self).max_sequence + 1,
            final(self).id == old(self).id,
            final(self).min_sequence == old(self).min_sequence,
            final(self).buf@ == old(self).buf@ + spec_u32_be(
                (21 + tenant@.len() + database@.len() + table@.len()) as u32,
            ) + spec_delete_table_entry(old(self).max_sequence, tenant@, database@, table@),
    {
        let sequence = self.max_sequence;
        let entry = encode_delete_table_entry(sequence, tenant, database, table);
        let written = self.append_record(entry);
        self.max_sequence = self.max_sequence + 1;
        proof {
            assert(self.buf@.subrange(0, 4) =~= old(self).buf@.subrange(0, 4));
        }
        (sequence, written)
    }

    /// Writes the footer and closes the segment.  The footer records the
    /// segment's first sequence and the closing maximum — never below the
    /// first, even for a segment that received no entry.  Returns the
    /// footer's byte length, for aggregate size accounting.
    pub fn close(&mut self) -> (r: usize)
        requires
            old(self).wf(),
            !old(self).closed,
        ensures
            final(self).wf(),
            final(self).closed,
            r == FOOTER_LEN,
            final(self).id == old(self).id,
            final(self).min_sequence == old(self).min_sequence,
            final(self).max_sequence == spec_closing_max_sequence(
                old(self).min_sequence,
                old(self).max_sequence,
            ),
            final(self).buf@ == old(self).buf@ + spec_footer(
                old(self).min_sequence,
                spec_closing_max_sequence(old(self).min_sequence, old(self).max_sequence),
            ),
            final(self).min_sequence <= final(self).max_sequence,
    {
        let closing_max = closing_max_sequence(self.min_sequence, self.max_sequence);
        let footer = encode_footer(self.min_sequence, closing_max);
        extend_bytes(&mut self.buf, footer.as_slice());
        self.max_sequence = closing_max;
        self.closed = true;
        proof {
            lemma_footer_parse(old(self).buf@, old(self).min_sequence, closing_max);
            assert(self.buf@.subrange(0, 4) =~= old(self).buf@.subrange(0, 4));
        }
        FOOTER_LEN
    }
}

} // verus!
