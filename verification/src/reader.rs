//! Sequential decoding of one segment's bytes.
//!
//! A segment is the four segment-magic bytes, then framed entries — each a
//! four-byte big-endian length followed by that many entry bytes — and, if
//! the segment was cleanly closed, the 32-byte footer.  The reader caches
//! the footer's sequence range at open (zero for both when no footer is
//! there) and yields one decoded entry per call.  A tail that ends in the
//! middle of a frame is reported as truncation, distinct from a structural
//! decode error; entries yielded before it remain valid.

use vstd::prelude::*;

use crate::bytes::{spec_be_u32, spec_u32_be};
use crate::codec::{
    decode_entry, read_footer, spec_block_matches, spec_entry_valid, spec_footer_max,
    spec_footer_min, spec_has_footer, spec_segment_magic, WalEntryBlock, FOOTER_LEN,
    RECORD_FRAME_LEN, SEGMENT_HEADER_LEN,
};
use crate::WalError;

verus! {

/// Whether `file` begins with the segment magic bytes.
pub open spec fn spec_segment_header_ok(file: Seq<u8>) -> bool {
    file.len() >= SEGMENT_HEADER_LEN && file.subrange(0, SEGMENT_HEADER_LEN as int)
        == spec_segment_magic()
}

/// Where the entry bytes of `file` end: before the footer when one is
/// there, at the end of the file otherwise.
pub open spec fn spec_data_end(file: Seq<u8>) -> int {
    if spec_has_footer(file) {
        file.len() - FOOTER_LEN
    } else {
        file.len() as int
    }
}

/// A row of records as the writer frames them: each entry behind a
/// four-byte big-endian length.
pub open spec fn spec_frames(entries: Seq<Seq<u8>>) -> Seq<u8>
    decreases entries.len(),
{
    if entries.len() == 0 {
        Seq::empty()
    } else {
        spec_u32_be(entries.first().len() as u32) + entries.first() + spec_frames(
            entries.drop_first(),
        )
    }
}

/// One more framed record on the end of a row: what the writer's append
/// adds to a segment's bytes.
pub proof fn lemma_frames_push(entries: Seq<Seq<u8>>, e: Seq<u8>)
    ensures
        spec_frames(entries.push(e)) == spec_frames(entries) + spec_u32_be(e.len() as u32) + e,
    decreases entries.len(),
{
    if entries.len() == 0 {
        assert(entries.push(e).first() == e);
        assert(entries.push(e).drop_first() =~= Seq::<Seq<u8>>::empty());
        assert(spec_frames(Seq::<Seq<u8>>::empty()).len() == 0);
        assert(spec_frames(entries.push(e)) =~= spec_frames(entries) + spec_u32_be(
            e.len() as u32,
        ) + e);
    } else {
        lemma_frames_push(entries.drop_first(), e);
        assert(entries.push(e).first() == entries.first());
        assert(entries.push(e).drop_first() =~= entries.drop_first().push(e));
        assert(spec_frames(entries.push(e)) =~= spec_frames(entries) + spec_u32_be(
            e.len() as u32,
        ) + e);
    }
}

/// A sequential reader over one segment's bytes.
pub struct WalReader {
    pub buf: Vec<u8>,
    pub pos: usize,
    pub data_end: usize,
    pub min_sequence: u64,
    pub max_sequence: u64,
}

impl WalReader {
    /// The segment bytes the reader was opened on.
    pub open spec fn file(self) -> Seq<u8> {
        self.buf@
    }

    /// The reader's cursor: the offset of the next frame.
    pub open spec fn cursor(self) -> int {
        self.pos as int
    }

    /// The reader is consistent with the bytes it was opened on: the cursor
    /// sits between the segment header and the end of the entry bytes, and
    /// the cached sequence range is the footer's, or zero without one.
    pub open spec fn wf(self) -> bool {
        &&& spec_segment_header_ok(self.buf@)
        &&& SEGMENT_HEADER_LEN <= self.pos <= self.data_end
        &&& self.data_end == spec_data_end(self.buf@)
        &&& self.min_sequence == if spec_has_footer(self.buf@) {
            spec_footer_min(self.buf@)
        } else {
            0u64
        }
        &&& self.max_sequence == if spec_has_footer(self.buf@) {
            spec_footer_max(self.buf@)
        } else {
            0u64
        }
    }

    /// How many entry bytes remain before the cursor reaches the footer or
    /// the end of the file.
    pub open spec fn rem(self) -> int {
        self.data_end - self.pos
    }

    /// The length declared by the frame at the cursor.
    pub open spec fn frame_len(self) -> int {
        spec_be_u32(self.buf@.subrange(self.cursor(), self.cursor() + 4)) as int
    }

    /// Whether a whole frame and its declared entry bytes lie before the
    /// end of the entry bytes.
    pub open spec fn frame_ok(self) -> bool {
        self.rem() >= RECORD_FRAME_LEN && RECORD_FRAME_LEN + self.frame_len() <= self.rem()
    }

    /// The entry bytes declared by the frame at the cursor.
    pub open spec fn entry_bytes(self) -> Seq<u8> {
        self.buf@.subrange(
            self.cursor() + RECORD_FRAME_LEN,
            self.cursor() + RECORD_FRAME_LEN + self.frame_len(),
        )
    }

    /// Walking a row of framed records: a reader whose remaining entry
    /// bytes are `spec_frames(entries) + tail` sits on a whole frame
    /// holding exactly the first record, with the rest of the row — and
    /// the same tail — after it.  Step by step, `next_wal_entry`'s
    /// contract therefore yields every record of the row, in order,
    /// whatever bytes trail them.
    pub proof fn lemma_reader_at_records(rd: WalReader, entries: Seq<Seq<u8>>, tail: Seq<u8>)
        requires
            rd.wf(),
            rd.buf@.subrange(rd.cursor(), rd.data_end as int) == spec_frames(entries) + tail,
            entries.len() > 0,
            RECORD_FRAME_LEN + entries.first().len() <= u32::MAX,
        ensures
            rd.frame_ok(),
            rd.frame_len() == entries.first().len(),
            rd.entry_bytes() == entries.first(),
            rd.buf@.subrange(
                rd.cursor() + RECORD_FRAME_LEN + entries.first().len(),
                rd.data_end as int,
            ) == spec_frames(entries.drop_first()) + tail,
    {
        let rem_s = rd.buf@.subrange(rd.cursor(), rd.data_end as int);
        let e0 = entries.first();
        let rest = spec_frames(entries.drop_first()) + tail;
        assert(rem_s == spec_u32_be(e0.len() as u32) + e0 + rest);
        assert(rem_s.len() == 4 + e0.len() + rest.len());
        assert(rd.buf@.subrange(rd.cursor(), rd.cursor() + 4) =~= spec_u32_be(e0.len() as u32));
        crate::bytes::lemma_u32_be_round_trip(e0.len() as u32);
        assert(rd.frame_len() == e0.len());
        assert forall|i: int| 0 <= i < e0.len() implies rem_s[4 + i] == e0[i] by {
            assert((spec_u32_be(e0.len() as u32) + e0 + rest)[4 + i] == e0[i]);
        }
        assert forall|i: int| 0 <= i < rest.len() implies rem_s[4 + e0.len() + i] == rest[i] by {
            assert((spec_u32_be(e0.len() as u32) + e0 + rest)[4 + e0.len() as int + i]
                == rest[i]);
        }
        assert(rd.entry_bytes() =~= e0);
        assert(rd.buf@.subrange(rd.cursor() + 4 + e0.len() as int, rd.data_end as int) =~= rest);
    }

    /// The truncated tail: a reader whose remaining entry bytes stop short
    /// of one whole frame — fewer than a frame header, or fewer than the
    /// frame's declared length — is not at a clean end and not on a whole
    /// frame, so `next_wal_entry`'s contract reports exactly a truncation,
    /// and leaves the reader in place: records yielded before it stand.
    pub proof fn lemma_reader_at_truncated_tail(rd: WalReader)
        requires
            rd.wf(),
            rd.rem() > 0,
            rd.rem() < RECORD_FRAME_LEN || RECORD_FRAME_LEN + rd.frame_len() > rd.rem(),
        ensures
            !rd.frame_ok(),
            rd.rem() != 0,
    {
    }

    /// Opens a reader over one segment's bytes.  Fails exactly when the
    /// bytes do not begin with the segment magic; the footer, if one is
    /// there, is parsed and cached.
    pub fn open(buf: Vec<u8>) -> (r: Result<WalReader, WalError>)
        ensures
            r is Ok <==> spec_segment_header_ok(buf@),
            r matches Ok(rd) ==> rd.wf() && rd.file() == buf@ && rd.cursor()
                == SEGMENT_HEADER_LEN,
            r matches Err(e) ==> e == WalError::InvalidSegmentHeader,
    {
        if buf.len() < SEGMENT_HEADER_LEN {
            return Err(WalError::InvalidSegmentHeader);
        }
        if !(buf[0] == 0x57u8 && buf[1] == 0x47u8 && buf[2] == 0x4cu8 && buf[3] == 0x00u8) {
            proof {
                if spec_segment_header_ok(buf@) {
                    let m = buf@.subrange(0, 4);
                    assert(buf@[0] == m[0] && buf@[1] == m[1] && buf@[2] == m[2]
                        && buf@[3] == m[3]);
                }
            }
            return Err(WalError::InvalidSegmentHeader);
        }
        proof {
            assert(buf@.subrange(0, 4) =~= spec_segment_magic());
        }
        let footer = read_footer(buf.as_slice());
        let (min_sequence, max_sequence) = match footer {
            Some((mn, mx)) => (mn, mx),
            None => (0u64, 0u64),
        };
        let data_end = if buf.len() >= SEGMENT_HEADER_LEN + FOOTER_LEN && footer.is_some() {
            buf.len() - FOOTER_LEN
        } else {
            buf.len()
        };
        Ok(WalReader { buf, pos: SEGMENT_HEADER_LEN, data_end, min_sequence, max_sequence })
    }

    /// The minimum sequence recorded in the segment's footer, or zero when
    /// the segment has none.
    pub fn min_sequence(&self) -> (r: u64)
        ensures
            r == self.min_sequence,
    {
        self.min_sequence
    }

    /// The maximum sequence recorded in the segment's footer, or zero when
    /// the segment has none.
    pub fn max_sequence(&self) -> (r: u64)
        ensures
            r == self.max_sequence,
    {
        self.max_sequence
    }

    /// Decodes the entry at the cursor and moves past it.  Yields `None` at
    /// the clean end of the entry bytes; reports a tail that stops short of
    /// its declared length as truncation, and declared field sizes that
    /// exceed the frame as a structural decode error, leaving the cursor in
    /// place either way.
    pub fn next_wal_entry(&mut self) -> (r: Result<Option<WalEntryBlock>, WalError>)
        requires
            old(self).wf(),
        ensures
            final(self).wf(),
            final(self).file() == old(self).file(),
            old(self).rem() == 0 ==> (r matches Ok(None) && *final(self) == *old(self)),
            old(self).rem() > 0 && !old(self).frame_ok() ==> (r matches Err(e) && e
                == WalError::WalTruncated && *final(self) == *old(self)),
            old(self).frame_ok() && !spec_entry_valid(old(self).entry_bytes()) ==> (r matches Err(
                e,
            ) && e == WalError::Decode && *final(self) == *old(self)),
            old(self).frame_ok() && spec_entry_valid(old(self).entry_bytes()) ==> (r matches Ok(
                b,
            ) && b matches Some(blk) && spec_block_matches(old(self).entry_bytes(), blk))
                && final(self).cursor() == old(self).cursor() + RECORD_FRAME_LEN + old(
                self,
            ).frame_len(),
    {
        let rem = self.data_end - self.pos;
        if rem == 0 {
            return Ok(None);
        }
        if rem < RECORD_FRAME_LEN {
            return Err(WalError::WalTruncated);
        }
        let frame_len32 = crate::bytes::get_u32_be(self.buf.as_slice(), self.pos);
        let frame_len = frame_len32 as usize;
        if frame_len > rem - RECORD_FRAME_LEN {
            return Err(WalError::WalTruncated);
        }
        let entry_start = self.pos + RECORD_FRAME_LEN;
        let entry = {
            let s = self.buf.as_slice();
            decode_entry(&s[entry_start..entry_start + frame_len])
        };
        proof {
            assert(old(self).entry_bytes() =~= self.buf@.subrange(
                entry_start as int,
                entry_start as int + frame_len as int,
            ));
        }
        match entry {
            Ok(blk) => {
                self.pos = entry_start + frame_len;
                Ok(Some(blk))
            },
            Err(e) => Err(e),
        }
    }
}

} // verus!
