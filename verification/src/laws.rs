use vstd::prelude::*;

use crate::cache::Cache;
use crate::cache::hdr_archive;
use crate::cache::hdr_chunk;
use crate::cache::hdr_index;
use crate::cache::index_record;
use crate::cache::lemma_walk_len;
use crate::cache::walk;
use crate::codec::codec_clen;
use crate::codec::codec_header_wf;
use crate::codec::codec_raw_out;
use crate::codec::codec_tag;
use crate::codec::decode_ok;
use crate::error::ReadError;
use crate::error::RuneFsError;
use crate::group::chunk_len_at;
use crate::group::file_data;
use crate::group::file_data_upto;
use crate::group::group_chunks;
use crate::group::group_data_len;
use crate::group::group_wf;
use crate::group::span_at;
use crate::group::span_prefix;

verus! {

/// A cache with no directory for the reserved reference-table index fails a
/// read of that index with the dedicated error, distinct from the generic
/// missing-index error that every other index raises.
pub proof fn lemma_missing_reference_table(c: Cache, archive_id: u32)
    requires
        c.dir(255) is None,
    ensures
        c.read_spec(255, archive_id) == Err::<Seq<u8>, RuneFsError>(
            RuneFsError::Read(ReadError::ReferenceTableNotFound),
        ),
{
}

/// A cache with no directory for an ordinary index fails a read of it with
/// the generic missing-index error carrying that index's id.
pub proof fn lemma_missing_index(c: Cache, index_id: u8, archive_id: u32)
    requires
        index_id != 255,
        c.dir(index_id) is None,
    ensures
        c.read_spec(index_id, archive_id) == Err::<Seq<u8>, RuneFsError>(
            RuneFsError::Read(ReadError::IndexNotFound(index_id)),
        ),
{
}

/// A mismatched owning-archive field in the first sector of a chain makes the
/// read fail with the archive-mismatch error, never a silent truncated read.
pub proof fn lemma_sector_archive_mismatch(c: Cache, index_id: u8, archive_id: u32)
    requires
        c.dir(index_id) matches Some(dir) && index_record(dir, archive_id) matches Some(
            (declared_len, first),
        ) && declared_len > 0 && (first as int) * 520 + 520 <= c.store().len() && hdr_archive(
            c.store(),
            (first as int) * 520,
            archive_id,
        ) != archive_id,
    ensures
        c.read_spec(index_id, archive_id) matches Err(e) && e == RuneFsError::Read(
            ReadError::SectorArchiveMismatch(
                hdr_archive(
                    c.store(),
                    (index_record(c.dir(index_id).unwrap(), archive_id).unwrap().1 as int) * 520,
                    archive_id,
                ) as u32,
                archive_id,
            ),
        ),
{
}

/// A mismatched chunk-sequence field in the first sector of a chain makes the
/// read fail with the chunk-mismatch error.
pub proof fn lemma_sector_chunk_mismatch(c: Cache, index_id: u8, archive_id: u32)
    requires
        c.dir(index_id) matches Some(dir) && index_record(dir, archive_id) matches Some(
            (declared_len, first),
        ) && declared_len > 0 && (first as int) * 520 + 520 <= c.store().len() && hdr_archive(
            c.store(),
            (first as int) * 520,
            archive_id,
        ) == archive_id && hdr_chunk(c.store(), (first as int) * 520, archive_id) != 0,
    ensures
        c.read_spec(index_id, archive_id) matches Err(e) && e == RuneFsError::Read(
            ReadError::SectorChunkMismatch(
                hdr_chunk(
                    c.store(),
                    (index_record(c.dir(index_id).unwrap(), archive_id).unwrap().1 as int) * 520,
                    archive_id,
                ) as usize,
                0,
            ),
        ),
{
}

/// A mismatched owning-index field in the first sector of a chain makes the
/// read fail with the parent-index-mismatch error.
pub proof fn lemma_sector_index_mismatch(c: Cache, index_id: u8, archive_id: u32)
    requires
        c.dir(index_id) matches Some(dir) && index_record(dir, archive_id) matches Some(
            (declared_len, first),
        ) && declared_len > 0 && (first as int) * 520 + 520 <= c.store().len() && hdr_archive(
            c.store(),
            (first as int) * 520,
            archive_id,
        ) == archive_id && hdr_chunk(c.store(), (first as int) * 520, archive_id) == 0 && hdr_index(
            c.store(),
            (first as int) * 520,
            archive_id,
        ) != index_id,
    ensures
        c.read_spec(index_id, archive_id) matches Err(e) && e == RuneFsError::Read(
            ReadError::SectorIndexMismatch(
                hdr_index(
                    c.store(),
                    (index_record(c.dir(index_id).unwrap(), archive_id).unwrap().1 as int) * 520,
                    archive_id,
                ),
                index_id,
            ),
        ),
{
}


/// At any point of a chain walk with bytes still owed, a sector whose
/// owning-archive field does not match the request fails the walk with the
/// archive-mismatch error; no bytes of it are accepted.
pub proof fn lemma_walk_archive_mismatch(
    main: Seq<u8>,
    index_id: u8,
    archive_id: u32,
    sector: u32,
    chunk: nat,
    remaining: nat,
)
    requires
        remaining > 0,
        (sector as int) * 520 + 520 <= main.len(),
        hdr_archive(main, (sector as int) * 520, archive_id) != archive_id,
    ensures
        walk(main, index_id, archive_id, sector, chunk, remaining) == Err::<Seq<u8>, RuneFsError>(
            RuneFsError::Read(
                ReadError::SectorArchiveMismatch(
                    hdr_archive(main, (sector as int) * 520, archive_id) as u32,
                    archive_id,
                ),
            ),
        ),
{
}

/// At any point of a chain walk with bytes still owed, a sector whose
/// chunk-sequence field does not match the expected position fails the walk
/// with the chunk-mismatch error.
pub proof fn lemma_walk_chunk_mismatch(
    main: Seq<u8>,
    index_id: u8,
    archive_id: u32,
    sector: u32,
    chunk: nat,
    remaining: nat,
)
    requires
        remaining > 0,
        (sector as int) * 520 + 520 <= main.len(),
        hdr_archive(main, (sector as int) * 520, archive_id) == archive_id,
        hdr_chunk(main, (sector as int) * 520, archive_id) != chunk,
    ensures
        walk(main, index_id, archive_id, sector, chunk, remaining) == Err::<Seq<u8>, RuneFsError>(
            RuneFsError::Read(
                ReadError::SectorChunkMismatch(
                    hdr_chunk(main, (sector as int) * 520, archive_id) as usize,
                    chunk as usize,
                ),
            ),
        ),
{
}

/// At any point of a chain walk with bytes still owed, a sector whose
/// owning-index field does not match the request fails the walk with the
/// parent-index-mismatch error.
pub proof fn lemma_walk_index_mismatch(
    main: Seq<u8>,
    index_id: u8,
    archive_id: u32,
    sector: u32,
    chunk: nat,
    remaining: nat,
)
    requires
        remaining > 0,
        (sector as int) * 520 + 520 <= main.len(),
        hdr_archive(main, (sector as int) * 520, archive_id) == archive_id,
        hdr_chunk(main, (sector as int) * 520, archive_id) == chunk,
        hdr_index(main, (sector as int) * 520, archive_id) != index_id,
    ensures
        walk(main, index_id, archive_id, sector, chunk, remaining) == Err::<Seq<u8>, RuneFsError>(
            RuneFsError::Read(
                ReadError::SectorIndexMismatch(
                    hdr_index(main, (sector as int) * 520, archive_id),
                    index_id,
                ),
            ),
        ),
{
}

/// Round trip: an archive whose read succeeds and whose stored payload is a
/// complete uncompressed codec buffer always decodes, the decoded length is
/// exactly the payload's declared length, and the payload read is exactly as
/// long as the directory record declares. Payloads stored under a compressed
/// format are not covered: their success rests on the outside decompressor.
pub proof fn lemma_read_decode_round_trip(c: Cache, index_id: u8, archive_id: u32)
    requires
        c.read_spec(index_id, archive_id) matches Ok(s) && codec_tag(s) == 0 && codec_header_wf(s),
    ensures
        c.read_spec(index_id, archive_id) matches Ok(s) && decode_ok(s) && (codec_raw_out(s)
            matches Some(d) && d.len() == codec_clen(s)),
        c.read_spec(index_id, archive_id) matches Ok(s) && c.dir(index_id) matches Some(dir)
            && index_record(dir, archive_id) matches Some((declared_len, first)) && s.len()
            == declared_len,
{
    let dir = c.dir(index_id).unwrap();
    let (declared_len, first) = index_record(dir, archive_id).unwrap();
    lemma_walk_len(c.store(), index_id, archive_id, first, 0, declared_len as nat);
    let s = c.read_spec(index_id, archive_id).unwrap();
    assert(codec_raw_out(s).unwrap().len() == codec_clen(s));
}

/// Sum of the lengths of the first `k` files, each cut off after `c` chunks.
pub open spec fn files_total_upto(s: Seq<u8>, n: int, c: int, k: int) -> int
    decreases k,
{
    if k <= 0 {
        0
    } else {
        files_total_upto(s, n, c, k - 1) + file_data_upto(s, n, k - 1, c).len()
    }
}

/// Total length of the file buffers the splitter produces.
pub open spec fn files_total(s: Seq<u8>, n: int) -> int {
    files_total_upto(s, n, group_chunks(s), n)
}

proof fn lemma_span_prefix_mono_wf(s: Seq<u8>, n: int, a: int, b: int)
    requires
        group_wf(s, n),
        0 <= a <= b <= group_chunks(s) * n,
    ensures
        span_prefix(s, n, a) <= span_prefix(s, n, b),
    decreases b - a,
{
    if a < b {
        lemma_span_prefix_mono_wf(s, n, a, b - 1);
    }
}

/// Under a well-formed table every span's bytes are exactly as long as its
/// reconstructed length.
proof fn lemma_span_at_len(s: Seq<u8>, n: int, i: int)
    requires
        group_wf(s, n),
        n >= 1,
        0 <= i < group_chunks(s) * n,
    ensures
        span_at(s, n, i).len() == chunk_len_at(s, n, i),
{
    lemma_span_prefix_mono_wf(s, n, 0, i);
    lemma_span_prefix_mono_wf(s, n, i + 1, group_chunks(s) * n);
    assert(span_prefix(s, n, i + 1) == span_prefix(s, n, i) + chunk_len_at(s, n, i));
    assert(group_data_len(s, n) <= s.len());
}

proof fn lemma_files_total_step(s: Seq<u8>, n: int, c: int, k: int)
    requires
        group_wf(s, n),
        n >= 1,
        0 <= c < group_chunks(s),
        0 <= k <= n,
    ensures
        files_total_upto(s, n, c + 1, k) == files_total_upto(s, n, c, k) + span_prefix(
            s,
            n,
            c * n + k,
        ) - span_prefix(s, n, c * n),
    decreases k,
{
    if k > 0 {
        lemma_files_total_step(s, n, c, k - 1);
        let i = c * n + (k - 1);
        assert(0 <= i < group_chunks(s) * n) by (nonlinear_arith)
            requires
                0 <= c < group_chunks(s),
                0 < k <= n,
                i == c * n + (k - 1),
        ;
        vstd::arithmetic::div_mod::lemma_fundamental_div_mod_converse(i, n, c, k - 1);
        lemma_span_at_len(s, n, i);
        assert(span_prefix(s, n, i + 1) == span_prefix(s, n, i) + chunk_len_at(s, n, i));
        assert(file_data_upto(s, n, k - 1, c + 1) == file_data_upto(s, n, k - 1, c) + span_at(
            s,
            n,
            i,
        ));
    }
}

proof fn lemma_files_total_upto_chunks(s: Seq<u8>, n: int, c: int)
    requires
        group_wf(s, n),
        n >= 1,
        0 <= c <= group_chunks(s),
    ensures
        files_total_upto(s, n, c, n) == span_prefix(s, n, c * n),
    decreases c,
{
    if c == 0 {
        lemma_files_total_zero(s, n, n);
    } else {
        lemma_files_total_upto_chunks(s, n, c - 1);
        lemma_files_total_step(s, n, c - 1, n);
        assert(files_total_upto(s, n, c, n) == span_prefix(s, n, (c - 1) * n + n));
        assert((c - 1) * n + n == c * n) by (nonlinear_arith);
        assert(span_prefix(s, n, (c - 1) * n + n) == span_prefix(s, n, c * n));
    }
}

proof fn lemma_files_total_zero(s: Seq<u8>, n: int, k: int)
    requires
        k >= 0,
    ensures
        files_total_upto(s, n, 0, k) == 0,
    decreases k,
{
    if k > 0 {
        lemma_files_total_zero(s, n, k - 1);
    }
}

/// Splitter conservation: for every packed-file count and decoded buffer with
/// a well-formed trailing length table, the file buffers the splitter emits
/// together hold exactly the bytes before the table, so their total length
/// plus the trailing table bytes equals the whole buffer's length.
pub proof fn lemma_split_conservation(s: Seq<u8>, n: int)
    requires
        group_wf(s, n),
        n >= 1,
    ensures
        files_total(s, n) + 1 + 4 * group_chunks(s) * n == s.len(),
{
    lemma_files_total_upto_chunks(s, n, group_chunks(s));
    assert(forall|f: int|
        0 <= f < n ==> file_data(s, n, f) == #[trigger] file_data_upto(s, n, f, group_chunks(s)));
}

} // verus!
