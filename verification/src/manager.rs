//! The log manager: one active segment, the retained non-active segments,
//! and the policies that roll, delete and recover them.
//!
//! The manager owns the log's state as plain values: the active segment's
//! writer and, for every other segment file of the log directory, its id
//! and its bytes.  The surrounding process lists, persists and removes the
//! actual files and keeps them equal to this state; every decision — which
//! sequence a write gets, when to roll, which segments to delete, which to
//! replay — is made here.  Contracts speak of a segment file as the pair of
//! its id and its byte sequence.

use vstd::prelude::*;

use crate::bytes::spec_u32_be;
use crate::codec::{
    copy_range, read_footer, spec_footer, spec_footer_max, spec_has_footer, spec_segment_magic,
    Precision, VnodeId, WalEntryType, FOOTER_LEN, RECORD_FRAME_LEN, SEGMENT_HEADER_LEN,
};
use crate::reader::{spec_segment_header_ok, WalReader};
use crate::writer::{spec_closing_max_sequence, WalWriter};
use crate::WalError;

verus! {

/// The configuration the log consumes: when to roll, when to signal the
/// engine to flush, and the flush policy for the surrounding process.
pub struct WalOptions {
    /// A write first rolls the active segment when the segment's size
    /// exceeds this many bytes.
    pub max_file_size: u64,
    /// `is_total_file_size_exceed` reports `true` once the log's total size
    /// reaches this many bytes.
    pub flush_trigger_total_file_size: u64,
    /// Whether the surrounding process must force every write to stable
    /// storage at once, instead of flushing on an interval.
    pub sync: bool,
    /// The flush interval, in milliseconds, when `sync` is off.
    pub sync_interval_millis: u64,
}

/// The engine-wide minimum sequence number still needed by the rest of the
/// engine.  The log only reads it; the value is advanced from outside as
/// entries are durably applied elsewhere.
pub struct GlobalSequenceContext {
    /// The minimum still-needed sequence number.
    pub min_seq: u64,
}

impl GlobalSequenceContext {
    /// A context that still needs every sequence, from the very first on.
    pub fn empty() -> (r: GlobalSequenceContext)
        ensures
            r.min_seq == 0,
    {
        GlobalSequenceContext { min_seq: 0 }
    }

    /// The minimum still-needed sequence number.
    pub fn min_seq(&self) -> (r: u64)
        ensures
            r == self.min_seq,
    {
        self.min_seq
    }

    /// Records a new minimum still-needed sequence number.
    pub fn set_min_seq(&mut self, min_seq: u64)
        ensures
            final(self).min_seq == min_seq,
    {
        self.min_seq = min_seq;
    }
}

/// One logged operation, submitted to the manager's single write entry
/// point.  Name fields are carried as the bytes that go to disk; point
/// payloads are opaque encoded bytes.
pub enum WalTask {
    Write { tenant: Vec<u8>, vnode_id: VnodeId, precision: Precision, points: Vec<u8> },
    DeleteVnode { tenant: Vec<u8>, database: Vec<u8>, vnode_id: VnodeId },
    DeleteTable { tenant: Vec<u8>, database: Vec<u8>, table: Vec<u8> },
}

impl WalTask {
    /// A point-write task.
    pub fn new_write(
        tenant: Vec<u8>,
        vnode_id: VnodeId,
        precision: Precision,
        points: Vec<u8>,
    ) -> (r: WalTask)
        ensures
            r matches WalTask::Write { tenant: t, vnode_id: v, precision: p, points: d } && t@
                == tenant@ && v == vnode_id && p == precision && d@ == points@,
    {
        WalTask::Write { tenant, vnode_id, precision, points }
    }

    /// A vnode-deletion task.
    pub fn new_delete_vnode(tenant: Vec<u8>, database: Vec<u8>, vnode_id: VnodeId) -> (r: WalTask)
        ensures
            r matches WalTask::DeleteVnode { tenant: t, database: d, vnode_id: v } && t@
                == tenant@ && d@ == database@ && v == vnode_id,
    {
        WalTask::DeleteVnode { tenant, database, vnode_id }
    }

    /// A table-deletion task.
    pub fn new_delete_table(tenant: Vec<u8>, database: Vec<u8>, table: Vec<u8>) -> (r: WalTask)
        ensures
            r matches WalTask::DeleteTable { tenant: t, database: d, table: b } && t@ == tenant@
                && d@ == database@ && b@ == table@,
    {
        WalTask::DeleteTable { tenant, database, table }
    }

    /// The entry type the operation is logged as.
    pub fn wal_entry_type(&self) -> (r: WalEntryType)
        ensures
            r == match self {
                WalTask::Write { .. } => WalEntryType::Write,
                WalTask::DeleteVnode { .. } => WalEntryType::DeleteVnode,
                WalTask::DeleteTable { .. } => WalEntryType::DeleteTable,
            },
    {
        match self {
            WalTask::Write { .. } => WalEntryType::Write,
            WalTask::DeleteVnode { .. } => WalEntryType::DeleteVnode,
            WalTask::DeleteTable { .. } => WalEntryType::DeleteTable,
        }
    }

    /// The length of the entry the operation encodes to, without its frame.
    pub open spec fn spec_entry_len(self) -> int {
        match self {
            WalTask::Write { tenant, points, .. } => 22 + tenant@.len() as int + points@.len(),
            WalTask::DeleteVnode { tenant, database, .. } => 21 + tenant@.len() as int + database@.len(),
            WalTask::DeleteTable { tenant, database, table } => 21 + tenant@.len() as int
                + database@.len() + table@.len(),
        }
    }

    /// The entry bytes the operation is logged as, under sequence `sequence`.
    pub open spec fn spec_entry(self, sequence: u64) -> Seq<u8> {
        match self {
            WalTask::Write {
                tenant,
                vnode_id,
                precision,
                points,
            } => crate::codec::spec_write_entry(
                sequence,
                vnode_id,
                crate::codec::spec_precision_tag(precision),
                tenant@,
                points@,
            ),
            WalTask::DeleteVnode {
                tenant,
                database,
                vnode_id,
            } => crate::codec::spec_delete_vnode_entry(sequence, vnode_id, tenant@, database@),
            WalTask::DeleteTable {
                tenant,
                database,
                table,
            } => crate::codec::spec_delete_table_entry(sequence, tenant@, database@, table@),
        }
    }
}

/// One non-active segment file the manager retains: its file id and its
/// bytes, equal to the file's contents in the log directory.
pub struct SegmentFile {
    /// The file id the segment is named from.
    pub id: u64,
    /// The file's bytes.
    pub bytes: Vec<u8>,
}

/// A segment file as contracts see it: its id and its byte sequence.
pub type FileView = (u64, Seq<u8>);

/// The view of one retained segment file.
pub open spec fn spec_file_view(f: SegmentFile) -> FileView {
    (f.id, f.bytes@)
}

/// The views of a row of retained segment files.
pub open spec fn spec_files_view(files: Seq<SegmentFile>) -> Seq<FileView> {
    files.map_values(|f: SegmentFile| spec_file_view(f))
}

/// The summed byte size of `files`.
pub open spec fn spec_files_size(files: Seq<FileView>) -> int
    decreases files.len(),
{
    if files.len() == 0 {
        0
    } else {
        spec_files_size(files.drop_last()) + files.last().1.len()
    }
}

/// Every prefix of `files` weighs no more than the whole, and no less
/// than nothing.
pub proof fn lemma_files_size_prefix(files: Seq<FileView>, i: int)
    requires
        0 <= i <= files.len(),
    ensures
        0 <= spec_files_size(files.subrange(0, i)) <= spec_files_size(files),
    decreases files.len(),
{
    if files.len() == 0 {
        assert(files.subrange(0, i) =~= files);
    } else if i == files.len() {
        assert(files.subrange(0, i) =~= files);
        lemma_files_size_prefix(files.drop_last(), files.len() - 1);
        assert(files.drop_last().subrange(0, files.len() - 1) =~= files.drop_last());
    } else {
        assert(files.subrange(0, i) =~= files.drop_last().subrange(0, i));
        lemma_files_size_prefix(files.drop_last(), i);
    }
}

/// The closed-segment table that `files` gives rise to: the id and footer
/// maximum of every file whose footer parses, in file order.
pub open spec fn spec_table_of(files: Seq<FileView>) -> Seq<(u64, u64)>
    decreases files.len(),
{
    if files.len() == 0 {
        Seq::empty()
    } else {
        let rest = spec_table_of(files.drop_last());
        if spec_has_footer(files.last().1) {
            rest.push((files.last().0, spec_footer_max(files.last().1)))
        } else {
            rest
        }
    }
}

/// Whether a retained segment is obsolete under minimum still-needed
/// sequence `min_seq`: its footer parses and records a maximum strictly
/// below `min_seq`.
pub open spec fn spec_deletable(file: FileView, min_seq: u64) -> bool {
    spec_has_footer(file.1) && spec_footer_max(file.1) < min_seq
}

/// The retained segments left after a deletion sweep under `min_seq`:
/// exactly the ones that are not obsolete, in their original order.
pub open spec fn spec_sweep(files: Seq<FileView>, min_seq: u64) -> Seq<FileView>
    decreases files.len(),
{
    if files.len() == 0 {
        Seq::empty()
    } else {
        let rest = spec_sweep(files.drop_last(), min_seq);
        if spec_deletable(files.last(), min_seq) {
            rest
        } else {
            rest.push(files.last())
        }
    }
}

/// A deletion sweep deletes each obsolete segment exactly once: sweeping
/// again under the same minimum, with nothing written in between, changes
/// nothing.
pub proof fn lemma_sweep_idempotent(files: Seq<FileView>, min_seq: u64)
    ensures
        spec_sweep(spec_sweep(files, min_seq), min_seq) == spec_sweep(files, min_seq),
    decreases files.len(),
{
    if files.len() == 0 {
        assert(spec_sweep(spec_sweep(files, min_seq), min_seq) =~= spec_sweep(files, min_seq));
    } else {
        let rest = spec_sweep(files.drop_last(), min_seq);
        lemma_sweep_idempotent(files.drop_last(), min_seq);
        if !spec_deletable(files.last(), min_seq) {
            assert(rest.push(files.last()).drop_last() =~= rest);
            assert(rest.push(files.last()).last() == files.last());
        }
    }
}

/// Copies one retained segment file.
fn copy_segment_file(f: &SegmentFile) -> (r: SegmentFile)
    ensures
        spec_file_view(r) == spec_file_view(*f),
{
    let bytes = copy_range(f.bytes.as_slice(), 0, f.bytes.len());
    proof {
        assert(f.bytes@.subrange(0, f.bytes@.len() as int) =~= f.bytes@);
    }
    SegmentFile { id: f.id, bytes }
}

/// The write-ahead log manager.
pub struct WalManager {
    /// The configuration the log was opened with.
    pub config: WalOptions,
    /// The engine-wide minimum still-needed sequence.
    pub global_seq_ctx: GlobalSequenceContext,
    /// The writer of the active segment.
    pub current_file: WalWriter,
    /// The summed size of every segment file, the active one included.
    pub total_file_size: u64,
    /// Every non-active segment file, in increasing file-id order.
    pub old_files: Vec<SegmentFile>,
    /// The id and recorded maximum sequence of every non-active segment
    /// whose footer parses, in the same order as `old_files`.
    pub old_file_max_sequence: Vec<(u64, u64)>,
}

impl WalManager {
    /// The views of the retained non-active segment files.
    pub open spec fn files_view(self) -> Seq<FileView> {
        spec_files_view(self.old_files@)
    }

    /// The manager's state is consistent: the active writer is open and
    /// sound, the closed-segment table is exactly what the retained files'
    /// footers say, file ids increase strictly up to the active one, and
    /// the size total is exactly the summed size of every segment.
    pub open spec fn wf(self) -> bool {
        &&& self.current_file.wf()
        &&& !self.current_file.closed
        &&& self.old_file_max_sequence@ == spec_table_of(self.files_view())
        &&& forall|i: int, j: int|
            0 <= i < j < self.files_view().len() ==> self.files_view()[i].0
                < self.files_view()[j].0
        &&& forall|i: int|
            0 <= i < self.files_view().len() ==> #[trigger] self.files_view()[i].0
                < self.current_file.id
        &&& self.total_file_size == spec_files_size(self.files_view())
            + self.current_file.buf@.len()
    }

    /// The sequence number the next accepted write will be assigned.
    pub open spec fn spec_next_sequence(self) -> u64 {
        self.current_file.max_sequence
    }

    /// Opens the log over the segment files found in the log directory,
    /// handed over as plain values in increasing file-id order.  The
    /// footer of each is read into the closed-segment table — files whose
    /// footer is missing or unparseable count toward the size total but
    /// not toward the table — and a brand-new active segment is begun: its
    /// file id is one past the highest found, and its first sequence is
    /// one past the highest file's footer-recorded maximum (one past the
    /// fallback value one, when that footer is unreadable); a restart never
    /// appends to an old file.  With no files at all, file ids and
    /// sequences start at one.
    #[verifier::loop_isolation(false)]
    pub fn open(
        config: WalOptions,
        global_seq_ctx: GlobalSequenceContext,
        existing: Vec<SegmentFile>,
    ) -> (r: WalManager)
        requires
            forall|i: int, j: int|
                0 <= i < j < spec_files_view(existing@).len() ==> spec_files_view(existing@)[i].0
                    < spec_files_view(existing@)[j].0,
            existing@.len() > 0 ==> existing@.last().id < u64::MAX,
            existing@.len() > 0 && spec_has_footer(existing@.last().bytes@) ==> spec_footer_max(
                existing@.last().bytes@,
            ) < u64::MAX,
            spec_files_size(spec_files_view(existing@)) + SEGMENT_HEADER_LEN <= u64::MAX,
        ensures
            r.wf(),
            r.config == config,
            r.global_seq_ctx == global_seq_ctx,
            r.files_view() == spec_files_view(existing@),
            r.current_file.id == if existing@.len() > 0 {
                (existing@.last().id + 1) as u64
            } else {
                1u64
            },
            r.spec_next_sequence() == if existing@.len() > 0 {
                if spec_has_footer(existing@.last().bytes@) {
                    (spec_footer_max(existing@.last().bytes@) + 1) as u64
                } else {
                    2u64
                }
            } else {
                1u64
            },
            r.current_file.min_sequence == r.spec_next_sequence(),
            r.current_file.buf@ == spec_segment_magic(),
            r.total_file_size == spec_files_size(spec_files_view(existing@)) + SEGMENT_HEADER_LEN,
    {
        let ghost vw = spec_files_view(existing@);
        let mut total_file_size: u64 = 0;
        let mut old_file_max_sequence: Vec<(u64, u64)> = Vec::new();
        let n = existing.len();
        let mut i: usize = 0;
        while i < n
            invariant
                0 <= i <= n,
                total_file_size == spec_files_size(vw.subrange(0, i as int)),
                old_file_max_sequence@ == spec_table_of(vw.subrange(0, i as int)),
            decreases n - i,
        {
            proof {
                lemma_files_size_prefix(vw, i + 1);
                assert(vw.subrange(0, i + 1).drop_last() =~= vw.subrange(0, i as int));
                assert(vw.subrange(0, i + 1).last() == vw[i as int]);
            }
            let f = &existing[i];
            total_file_size = total_file_size + (f.bytes.len() as u64);
            match read_footer(f.bytes.as_slice()) {
                Some((_min_seq, max_seq)) => {
                    old_file_max_sequence.push((f.id, max_seq));
                },
                None => {},
            }
            i = i + 1;
        }
        proof {
            assert(vw.subrange(0, n as int) =~= vw);
        }
        let (pre_max_seq, next_file_id) = if n > 0 {
            let last = &existing[n - 1];
            proof {
                assert(existing@[n - 1] == existing@.last());
            }
            match read_footer(last.bytes.as_slice()) {
                Some((_mn, mx)) => (mx + 1, last.id + 1),
                None => (2u64, last.id + 1),
            }
        } else {
            (1u64, 1u64)
        };
        let current_file = WalWriter::open(next_file_id, pre_max_seq);
        total_file_size = total_file_size + (SEGMENT_HEADER_LEN as u64);
        WalManager {
            config,
            global_seq_ctx,
            current_file,
            total_file_size,
            old_files: existing,
            old_file_max_sequence,
        }
    }

    /// Deletes every obsolete retained segment: one whose recorded footer
    /// maximum lies strictly below the minimum still-needed sequence.  The
    /// segment leaves the retained files and the closed-segment table, and
    /// its size leaves the total.
    #[verifier::loop_isolation(false)]
    pub fn check_to_delete(&mut self)
        requires
            old(self).wf(),
        ensures
            final(self).wf(),
            final(self).files_view() == spec_sweep(
                old(self).files_view(),
                old(self).global_seq_ctx.min_seq,
            ),
            final(self).config == old(self).config,
            final(self).global_seq_ctx == old(self).global_seq_ctx,
            final(self).current_file == old(self).current_file,
            final(self).total_file_size <= old(self).total_file_size,
    {
        let ghost vw = old(self).files_view();
        let min_seq = self.global_seq_ctx.min_seq();
        let n = self.old_files.len();
        let mut kept_files: Vec<SegmentFile> = Vec::new();
        let mut kept_table: Vec<(u64, u64)> = Vec::new();
        let mut kept_size: u64 = 0;
        let mut i: usize = 0;
        while i < n
            invariant
                0 <= i <= n,
                self.old_files@ == old(self).old_files@,
                self.current_file == old(self).current_file,
                self.global_seq_ctx == old(self).global_seq_ctx,
                spec_files_view(kept_files@) == spec_sweep(vw.subrange(0, i as int), min_seq),
                kept_table@ == spec_table_of(spec_files_view(kept_files@)),
                kept_size == spec_files_size(spec_files_view(kept_files@)),
                spec_files_size(spec_files_view(kept_files@)) <= spec_files_size(
                    vw.subrange(0, i as int),
                ),
                forall|k1: int, k2: int|
                    0 <= k1 < k2 < spec_files_view(kept_files@).len() ==> spec_files_view(
                        kept_files@,
                    )[k1].0 < spec_files_view(kept_files@)[k2].0,
                forall|k: int, j: int|
                    0 <= k < spec_files_view(kept_files@).len() && i <= j < n
                        ==> spec_files_view(kept_files@)[k].0 < vw[j].0,
                forall|k: int|
                    0 <= k < spec_files_view(kept_files@).len() ==> #[trigger] spec_files_view(
                        kept_files@,
                    )[k].0 < self.current_file.id,
            decreases n - i,
        {
            proof {
                lemma_files_size_prefix(vw, i + 1);
                assert(vw.subrange(0, i + 1).drop_last() =~= vw.subrange(0, i as int));
                assert(vw.subrange(0, i + 1).last() == vw[i as int]);
            }
            let f = &self.old_files[i];
            let footer = read_footer(f.bytes.as_slice());
            let deletable = match footer {
                Some((_mn, mx)) => mx < min_seq,
                None => false,
            };
            if !deletable {
                let copied = copy_segment_file(f);
                proof {
                    assert(spec_files_view(kept_files@.push(copied)) =~= spec_files_view(
                        kept_files@,
                    ).push(spec_file_view(copied)));
                    assert(spec_files_view(kept_files@).push(spec_file_view(copied)).drop_last()
                        =~= spec_files_view(kept_files@));
                }
                kept_size = kept_size + (copied.bytes.len() as u64);
                match footer {
                    Some((_mn, mx)) => {
                        kept_table.push((copied.id, mx));
                    },
                    None => {},
                }
                kept_files.push(copied);
            }
            i = i + 1;
        }
        proof {
            assert(vw.subrange(0, n as int) =~= vw);
        }
        self.old_files = kept_files;
        self.old_file_max_sequence = kept_table;
        self.total_file_size = kept_size + (self.current_file.buf.len() as u64);
    }

    /// Closes the active segment and rolls to a fresh one when the active
    /// segment's size exceeds `max_file_size`; otherwise does nothing.  The
    /// outgoing segment gets its footer — its recorded maximum computed by
    /// the closing conversion, never below its minimum — and enters the
    /// retained files and the closed-segment table; the new active segment
    /// continues at the outgoing one's next-to-assign sequence.  A roll
    /// ends with a deletion sweep.
    pub fn roll_wal_file(&mut self, max_file_size: u64)
        requires
            old(self).wf(),
            old(self).current_file.id < u64::MAX,
            old(self).total_file_size + SEGMENT_HEADER_LEN + FOOTER_LEN <= u64::MAX,
        ensures
            final(self).wf(),
            final(self).config == old(self).config,
            final(self).global_seq_ctx == old(self).global_seq_ctx,
            final(self).spec_next_sequence() == old(self).spec_next_sequence(),
            final(self).total_file_size <= old(self).total_file_size + SEGMENT_HEADER_LEN
                + FOOTER_LEN,
            old(self).current_file.buf@.len() <= max_file_size ==> *final(self) == *old(self),
            old(self).current_file.buf@.len() > max_file_size ==> {
                &&& final(self).current_file.id == old(self).current_file.id + 1
                &&& final(self).current_file.min_sequence == old(self).current_file.max_sequence
                &&& final(self).current_file.buf@ == spec_segment_magic()
                &&& final(self).files_view() == spec_sweep(
                    old(self).files_view().push(
                        (
                            old(self).current_file.id,
                            old(self).current_file.buf@ + spec_footer(
                                old(self).current_file.min_sequence,
                                spec_closing_max_sequence(
                                    old(self).current_file.min_sequence,
                                    old(self).current_file.max_sequence,
                                ),
                            ),
                        ),
                    ),
                    old(self).global_seq_ctx.min_seq,
                )
            },
    {
        if self.current_file.size() > max_file_size {
            let new_file_id = self.current_file.id() + 1;
            let mut outgoing = WalWriter::open(new_file_id, self.current_file.max_sequence());
            self.total_file_size = self.total_file_size + (SEGMENT_HEADER_LEN as u64);
            core::mem::swap(&mut self.current_file, &mut outgoing);
            let footer_len = outgoing.close();
            self.total_file_size = self.total_file_size + (footer_len as u64);
            self.old_file_max_sequence.push((outgoing.id(), outgoing.max_sequence()));
            let ghost closed_view = (outgoing.id, outgoing.buf@);
            let closed = SegmentFile { id: outgoing.id, bytes: outgoing.buf };
            proof {
                assert(spec_files_view(self.old_files@.push(closed)) =~= old(
                    self,
                ).files_view().push(closed_view));
                assert(old(self).files_view().push(closed_view).drop_last() =~= old(
                    self,
                ).files_view());
            }
            self.old_files.push(closed);
            self.check_to_delete();
        }
    }

    /// Appends one logged operation, rolling first when the active segment
    /// has outgrown the configured maximum.  Returns the operation's
    /// assigned sequence number and the bytes the log grew by; successive
    /// accepted writes get successive sequence numbers.
    pub fn write(&mut self, wal_task: WalTask) -> (r: (u64, usize))
        requires
            old(self).wf(),
            old(self).current_file.id < u64::MAX,
            old(self).spec_next_sequence() < u64::MAX,
            RECORD_FRAME_LEN + wal_task.spec_entry_len() <= u32::MAX,
            old(self).total_file_size + SEGMENT_HEADER_LEN + FOOTER_LEN + RECORD_FRAME_LEN
                + wal_task.spec_entry_len() <= u64::MAX,
        ensures
            final(self).wf(),
            final(self).config == old(self).config,
            final(self).global_seq_ctx == old(self).global_seq_ctx,
            r.0 == old(self).spec_next_sequence(),
            r.1 == RECORD_FRAME_LEN + wal_task.spec_entry_len(),
            final(self).spec_next_sequence() == r.0 + 1,
            old(self).current_file.buf@.len() <= old(self).config.max_file_size ==> {
                &&& final(self).current_file.id == old(self).current_file.id
                &&& final(self).current_file.buf@ == old(self).current_file.buf@ + spec_u32_be(
                    wal_task.spec_entry_len() as u32,
                ) + wal_task.spec_entry(r.0)
                &&& final(self).files_view() == old(self).files_view()
            },
            old(self).current_file.buf@.len() > old(self).config.max_file_size ==> {
                &&& final(self).current_file.id == old(self).current_file.id + 1
                &&& final(self).current_file.buf@ == spec_segment_magic() + spec_u32_be(
                    wal_task.spec_entry_len() as u32,
                ) + wal_task.spec_entry(r.0)
                &&& final(self).files_view() == spec_sweep(
                    old(self).files_view().push(
                        (
                            old(self).current_file.id,
                            old(self).current_file.buf@ + spec_footer(
                                old(self).current_file.min_sequence,
                                spec_closing_max_sequence(
                                    old(self).current_file.min_sequence,
                                    old(self).current_file.max_sequence,
                                ),
                            ),
                        ),
                    ),
                    old(self).global_seq_ctx.min_seq,
                )
            },
    {
        let max_file_size = self.config.max_file_size;
        self.roll_wal_file(max_file_size);
        let (seq, size) = match wal_task {
            WalTask::Write { tenant, vnode_id, precision, points } => self.current_file.write(
                tenant.as_slice(),
                vnode_id,
                precision,
                points.as_slice(),
            ),
            WalTask::DeleteVnode { tenant, database, vnode_id } => self.current_file.delete_vnode(
                tenant.as_slice(),
                database.as_slice(),
                vnode_id,
            ),
            WalTask::DeleteTable { tenant, database, table } => self.current_file.delete_table(
                tenant.as_slice(),
                database.as_slice(),
                table.as_slice(),
            ),
        };
        self.total_file_size = self.total_file_size + (size as u64);
        (seq, size)
    }

    /// Whether a segment with bytes `file` must be replayed during
    /// recovery under minimum still-needed sequence `min_seq`: its footer
    /// is absent (it may have crashed mid-write, or still be active) or
    /// unreadable in range, or it records a maximum at or above `min_seq`.
    pub open spec fn spec_recoverable(file: Seq<u8>, min_seq: u64) -> bool {
        if spec_has_footer(file) {
            spec_footer_max(file) == 0 || spec_footer_max(file) >= min_seq
        } else {
            true
        }
    }

    /// The byte sequences of every segment file of the log, the active one
    /// last.
    pub open spec fn spec_all_files(self) -> Seq<Seq<u8>> {
        self.old_files@.map_values(|f: SegmentFile| f.bytes@).push(self.current_file.buf@)
    }

    /// Of `files`, the ones that must be replayed, in order.
    pub open spec fn spec_recover_select(files: Seq<Seq<u8>>, min_seq: u64) -> Seq<Seq<u8>>
        decreases files.len(),
    {
        if files.len() == 0 {
            Seq::empty()
        } else {
            let rest = Self::spec_recover_select(files.drop_last(), min_seq);
            if Self::spec_recoverable(files.last(), min_seq) {
                rest.push(files.last())
            } else {
                rest
            }
        }
    }

    /// Opens a reader over every segment that may hold entries the rest of
    /// the engine has not durably applied: every segment without a footer,
    /// and every segment whose footer's maximum is at or above the minimum
    /// still-needed sequence.  Segments strictly below it are skipped.
    /// Fails exactly when some segment's bytes do not begin with the
    /// segment magic.
    #[verifier::loop_isolation(false)]
    pub fn readers_to_recover(&self) -> (r: Result<Vec<WalReader>, WalError>)
        requires
            self.wf(),
        ensures
            r is Ok <==> forall|i: int|
                0 <= i < self.spec_all_files().len() ==> spec_segment_header_ok(
                    #[trigger] self.spec_all_files()[i],
                ),
            r matches Ok(readers) ==> {
                &&& readers@.map_values(|rd: WalReader| rd.buf@) == Self::spec_recover_select(
                    self.spec_all_files(),
                    self.global_seq_ctx.min_seq,
                )
                &&& forall|i: int|
                    0 <= i < readers@.len() ==> (#[trigger] readers@[i]).wf() && readers@[i].pos
                        == SEGMENT_HEADER_LEN
            },
            r matches Err(e) ==> e == WalError::InvalidSegmentHeader,
    {
        let ghost all = self.spec_all_files();
        let min_seq = self.global_seq_ctx.min_seq();
        let n = self.old_files.len();
        let mut readers: Vec<WalReader> = Vec::new();
        let mut i: usize = 0;
        while i < n
            invariant
                0 <= i <= n,
                readers@.map_values(|rd: WalReader| rd.buf@) == Self::spec_recover_select(
                    all.subrange(0, i as int),
                    min_seq,
                ),
                forall|k: int|
                    0 <= k < readers@.len() ==> (#[trigger] readers@[k]).wf() && readers@[k].pos
                        == SEGMENT_HEADER_LEN,
                forall|k: int|
                    0 <= k < i ==> spec_segment_header_ok(#[trigger] all[k]),
            decreases n - i,
        {
            proof {
                assert(all.subrange(0, i + 1).drop_last() =~= all.subrange(0, i as int));
                assert(all.subrange(0, i + 1).last() == all[i as int]);
                assert(all[i as int] == self.old_files@[i as int].bytes@);
            }
            let f = &self.old_files[i];
            let bytes = copy_range(f.bytes.as_slice(), 0, f.bytes.len());
            proof {
                assert(f.bytes@.subrange(0, f.bytes@.len() as int) =~= f.bytes@);
            }
            match WalReader::open(bytes) {
                Err(e) => {
                    return Err(e);
                },
                Ok(rd) => {
                    let mx = rd.max_sequence();
                    if mx == 0 || mx >= min_seq {
                        proof {
                            assert(readers@.push(rd).map_values(|x: WalReader| x.buf@)
                                =~= readers@.map_values(|x: WalReader| x.buf@).push(rd.buf@));
                        }
                        readers.push(rd);
                    }
                },
            }
            i = i + 1;
        }
        proof {
            assert(all.subrange(0, n as int) =~= all.drop_last());
            assert(all.last() == self.current_file.buf@);
        }
        let bytes = copy_range(self.current_file.buf.as_slice(), 0, self.current_file.buf.len());
        proof {
            assert(self.current_file.buf@.subrange(0, self.current_file.buf@.len() as int)
                =~= self.current_file.buf@);
        }
        match WalReader::open(bytes) {
            Err(_) => {
                proof {
                    assert(spec_segment_header_ok(self.current_file.buf@));
                    assert(false);
                }
                Err(WalError::InvalidSegmentHeader)
            },
            Ok(rd) => {
                let mx = rd.max_sequence();
                if mx == 0 || mx >= min_seq {
                    proof {
                        assert(readers@.push(rd).map_values(|x: WalReader| x.buf@)
                            =~= readers@.map_values(|x: WalReader| x.buf@).push(rd.buf@));
                    }
                    readers.push(rd);
                }
                Ok(readers)
            },
        }
    }

    /// Closes the active segment: its footer is written, recording a range
    /// whose maximum never falls below its minimum.  Returns the footer's
    /// byte length and the closed writer, whose bytes are the segment's
    /// final contents.
    pub fn close(self) -> (r: (usize, WalWriter))
        requires
            self.wf(),
        ensures
            r.0 == FOOTER_LEN,
            r.1.wf(),
            r.1.closed,
            r.1.id == self.current_file.id,
            r.1.buf@ == self.current_file.buf@ + spec_footer(
                self.current_file.min_sequence,
                spec_closing_max_sequence(
                    self.current_file.min_sequence,
                    self.current_file.max_sequence,
                ),
            ),
            r.1.min_sequence <= r.1.max_sequence,
    {
        let mut current_file = self.current_file;
        let footer_len = current_file.close();
        (footer_len, current_file)
    }

    /// The sequence number the next accepted write will be assigned.
    pub fn current_seq_no(&self) -> (r: u64)
        ensures
            r == self.spec_next_sequence(),
    {
        self.current_file.max_sequence()
    }

    /// The flush interval, in milliseconds, that the log was configured
    /// with.
    pub fn sync_interval(&self) -> (r: u64)
        ensures
            r == self.config.sync_interval_millis,
    {
        self.config.sync_interval_millis
    }

    /// Whether the log's total size has reached the configured threshold at
    /// which the rest of the engine should force an apply-and-flush cycle.
    pub fn is_total_file_size_exceed(&self) -> (r: bool)
        ensures
            r == (self.total_file_size >= self.config.flush_trigger_total_file_size),
    {
        self.total_file_size >= self.config.flush_trigger_total_file_size
    }

    /// The summed size of every segment file, the active one included.
    pub fn total_file_size(&self) -> (r: u64)
        ensures
            r == self.total_file_size,
    {
        self.total_file_size
    }
}

/// One write step as the manager promises it: the operation is assigned
/// the next-to-assign sequence, and the counter moves up by one.
pub open spec fn spec_write_step(next_before: u64, next_after: u64, assigned: u64) -> bool {
    assigned == next_before && next_after == next_before + 1
}

/// The next-to-assign counter after `k` chained write steps is the start
/// plus `k`.
proof fn lemma_next_sequence_linear(next: Seq<u64>, k: int)
    requires
        next.len() >= 1,
        0 <= k < next.len(),
        forall|i: int|
            0 <= i < next.len() - 1 ==> #[trigger] (next[i + 1] as int) == next[i] + 1,
    ensures
        next[k] == next[0] + k,
    decreases k,
{
    if k > 0 {
        lemma_next_sequence_linear(next, k - 1);
        assert((next[(k - 1) + 1] as int) == next[k - 1] + 1);
    }
}

/// Any run of `N` accepted writes against one manager is assigned exactly
/// the sequence numbers `s, s+1, …, s+N-1`, in processing order, where `s`
/// is the next-to-assign counter before the run: the counters between
/// steps chain each write's promise (`spec_write_step`, which `write`'s
/// contract establishes) into a contiguous block.
pub proof fn lemma_write_sequences_contiguous(next: Seq<u64>, assigned: Seq<u64>)
    requires
        next.len() == assigned.len() + 1,
        forall|i: int|
            0 <= i < assigned.len() ==> spec_write_step(
                next[i],
                next[i + 1],
                #[trigger] assigned[i],
            ),
    ensures
        forall|i: int| 0 <= i < assigned.len() ==> #[trigger] assigned[i] == next[0] + i,
{
    assert forall|i: int| 0 <= i < assigned.len() implies #[trigger] assigned[i] == next[0]
        + i by {
        assert(spec_write_step(next[i], next[i + 1], assigned[i]));
        assert forall|j: int| 0 <= j < next.len() - 1 implies #[trigger] (next[j + 1] as int)
            == next[j] + 1 by {
            assert(spec_write_step(next[j], next[j + 1], assigned[j]));
        }
        lemma_next_sequence_linear(next, i);
    }
}

} // verus!
