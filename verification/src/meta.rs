use vstd::prelude::*;

use crate::bytes::be_u16;
use crate::bytes::be_u32;
use crate::bytes::read_be_u16;
use crate::bytes::read_be_u32;
use crate::error::ParseError;
use crate::error::RuneFsError;

verus! {

/// Mathematical model of one archive descriptor decoded from a reference
/// table: its id, optional name hash, checksum, revision, packed-file count
/// and the slot-to-file-id remapping table.
pub ghost struct ArchiveModel {
    pub id: int,
    pub name_hash: Option<int>,
    pub crc: int,
    pub revision: int,
    pub entry_count: int,
    pub valid_ids: Seq<int>,
}

/// Per-archive metadata decoded from a reference table.
#[derive(Clone, Debug)]
pub struct ArchiveData {
    pub id: u32,
    pub name_hash: Option<u32>,
    pub crc: u32,
    pub revision: u32,
    pub entry_count: usize,
    pub valid_ids: Vec<u16>,
}

impl View for ArchiveData {
    type V = ArchiveModel;

    open spec fn view(&self) -> ArchiveModel {
        ArchiveModel {
            id: self.id as int,
            name_hash: match self.name_hash {
                Some(h) => Some(h as int),
                None => None,
            },
            crc: self.crc as int,
            revision: self.revision as int,
            entry_count: self.entry_count as int,
            valid_ids: self.valid_ids@.map_values(|v: u16| v as int),
        }
    }
}

/// The protocol byte of the reference-table buffer.
pub open spec fn meta_protocol(s: Seq<u8>) -> u8 {
    s[0]
}

/// Offset of the flags byte: the protocol byte, then a 4-byte table revision
/// for protocol 6 and later.
pub open spec fn meta_flags_off(s: Seq<u8>) -> int {
    if meta_protocol(s) >= 6 {
        5
    } else {
        1
    }
}

/// Whether the table carries a name hash per archive (flags bit 0).
pub open spec fn meta_named(s: Seq<u8>) -> bool {
    s[meta_flags_off(s)] & 1 == 1
}

/// Offset of the 2-byte archive count.
pub open spec fn meta_count_off(s: Seq<u8>) -> int {
    meta_flags_off(s) + 1
}

/// Number of archive descriptors the table declares.
pub open spec fn meta_count(s: Seq<u8>) -> int {
    be_u16(s, meta_count_off(s))
}

/// Offset of the archive-id delta table.
pub open spec fn meta_ids_off(s: Seq<u8>) -> int {
    meta_count_off(s) + 2
}

/// Archive id of the descriptor at position `i`: the cumulative sum of the
/// 2-byte deltas, letting ascending sparse ids be stored compactly.
pub open spec fn meta_id_at(s: Seq<u8>, i: int) -> int
    decreases i,
{
    if i <= 0 {
        be_u16(s, meta_ids_off(s))
    } else {
        meta_id_at(s, i - 1) + be_u16(s, meta_ids_off(s) + 2 * i)
    }
}

/// Offset of the name-hash table, present only when the table is named.
pub open spec fn meta_hashes_off(s: Seq<u8>) -> int {
    meta_ids_off(s) + 2 * meta_count(s)
}

/// Offset of the per-archive checksum table.
pub open spec fn meta_crc_off(s: Seq<u8>) -> int {
    meta_hashes_off(s) + if meta_named(s) {
        4 * meta_count(s)
    } else {
        0
    }
}

/// Offset of the per-archive revision table.
pub open spec fn meta_rev_off(s: Seq<u8>) -> int {
    meta_crc_off(s) + 4 * meta_count(s)
}

/// Offset of the per-archive packed-file-count table.
pub open spec fn meta_ec_off(s: Seq<u8>) -> int {
    meta_rev_off(s) + 4 * meta_count(s)
}

/// Offset of the per-archive file-id delta tables.
pub open spec fn meta_vid_off(s: Seq<u8>) -> int {
    meta_ec_off(s) + 2 * meta_count(s)
}

/// Packed-file count of the descriptor at position `i`.
pub open spec fn meta_entry_count_at(s: Seq<u8>, i: int) -> int {
    be_u16(s, meta_ec_off(s) + 2 * i)
}

/// Sum of the packed-file counts of the descriptors before position `i`.
pub open spec fn meta_ec_prefix(s: Seq<u8>, i: int) -> int
    decreases i,
{
    if i <= 0 {
        0
    } else {
        meta_ec_prefix(s, i - 1) + meta_entry_count_at(s, i - 1)
    }
}

/// Offset of the file-id delta table of the descriptor at position `i`.
pub open spec fn meta_vid_start(s: Seq<u8>, i: int) -> int {
    meta_vid_off(s) + 2 * meta_ec_prefix(s, i)
}

/// Total number of bytes a well-formed table occupies.
pub open spec fn meta_total_len(s: Seq<u8>) -> int {
    meta_vid_start(s, meta_count(s))
}

/// File id of slot `k` of the descriptor at position `i`: the cumulative sum
/// of the 2-byte deltas, reduced to 16 bits.
pub open spec fn meta_valid_id_at(s: Seq<u8>, i: int, k: int) -> int
    decreases k,
{
    if k <= 0 {
        be_u16(s, meta_vid_start(s, i)) % 0x10000
    } else {
        (meta_valid_id_at(s, i, k - 1) + be_u16(s, meta_vid_start(s, i) + 2 * k)) % 0x10000
    }
}

/// Whether the fixed-layout head of the table is complete: a supported
/// protocol, the flags and count bytes, and the whole archive-id delta table.
pub open spec fn meta_header_wf(s: Seq<u8>) -> bool {
    &&& s.len() >= 1
    &&& (meta_protocol(s) == 5 || meta_protocol(s) == 6)
    &&& s.len() >= meta_ids_off(s)
    &&& s.len() >= meta_hashes_off(s)
}

/// Whether the whole table is complete.
pub open spec fn meta_wf(s: Seq<u8>) -> bool {
    meta_header_wf(s) && s.len() >= meta_total_len(s)
}

/// The descriptor model at position `i` of a well-formed table.
pub open spec fn archive_model(s: Seq<u8>, i: int) -> ArchiveModel {
    ArchiveModel {
        id: meta_id_at(s, i),
        name_hash: if meta_named(s) {
            Some(be_u32(s, meta_hashes_off(s) + 4 * i))
        } else {
            None
        },
        crc: be_u32(s, meta_crc_off(s) + 4 * i),
        revision: be_u32(s, meta_rev_off(s) + 4 * i),
        entry_count: meta_entry_count_at(s, i),
        valid_ids: Seq::new(
            meta_entry_count_at(s, i) as nat,
            |k: int| meta_valid_id_at(s, i, k),
        ),
    }
}

/// Position of the first descriptor whose file-id delta table is truncated,
/// searched from position `i` upward.
pub open spec fn meta_vid_fail_from(s: Seq<u8>, i: int) -> int
    decreases meta_count(s) - i,
{
    if i >= meta_count(s) {
        0
    } else if s.len() < meta_vid_start(s, i + 1) {
        i
    } else {
        meta_vid_fail_from(s, i + 1)
    }
}

/// Position of the descriptor a truncated table's failure is attributed to.
pub open spec fn meta_first_bad(s: Seq<u8>) -> int {
    if meta_named(s) && s.len() < meta_crc_off(s) {
        (s.len() - meta_hashes_off(s)) / 4
    } else if s.len() < meta_rev_off(s) {
        (s.len() - meta_crc_off(s)) / 4
    } else if s.len() < meta_ec_off(s) {
        (s.len() - meta_rev_off(s)) / 4
    } else if s.len() < meta_vid_off(s) {
        (s.len() - meta_ec_off(s)) / 2
    } else {
        meta_vid_fail_from(s, 0)
    }
}

/// Archive ids stay below `0x10000 * (i + 1)`, so every id fits in 32 bits.
proof fn lemma_meta_id_bound(s: Seq<u8>, i: int)
    requires
        i >= 0,
    ensures
        0 <= meta_id_at(s, i) < 0x10000 * (i + 1),
    decreases i,
{
    if i > 0 {
        lemma_meta_id_bound(s, i - 1);
    }
}

/// Prefix sums of packed-file counts are nonnegative and monotone.
proof fn lemma_ec_prefix_mono(s: Seq<u8>, a: int, b: int)
    requires
        0 <= a <= b,
    ensures
        0 <= meta_ec_prefix(s, a) <= meta_ec_prefix(s, b),
    decreases b,
{
    if b > 0 {
        if a == b {
            lemma_ec_prefix_mono(s, 0, b - 1);
        } else {
            lemma_ec_prefix_mono(s, a, b - 1);
        }
    }
}

proof fn lemma_vid_fail_pins(s: Seq<u8>, k: int, i: int)
    requires
        0 <= k <= i < meta_count(s),
        forall|j: int| k <= j < i ==> s.len() >= #[trigger] meta_vid_start(s, j + 1),
        s.len() < meta_vid_start(s, i + 1),
    ensures
        meta_vid_fail_from(s, k) == i,
    decreases i - k,
{
    if k < i {
        assert(s.len() >= meta_vid_start(s, k + 1));
        lemma_vid_fail_pins(s, k + 1, i);
    }
}

/// The decoded directory of one index: its archive descriptors in ascending
/// id order.
pub struct IndexMetadata {
    pub archives: Vec<ArchiveData>,
}

impl View for IndexMetadata {
    type V = Seq<ArchiveModel>;

    open spec fn view(&self) -> Seq<ArchiveModel> {
        self.archives@.map_values(|a: ArchiveData| a@)
    }
}

/// Reads one big-endian 32-bit column of `n` values starting at `start`;
/// a truncated element is blamed on the archive id at its position.
fn read_u32_column(buffer: &[u8], start: usize, n: usize, ids: &Vec<u32>) -> (r: Result<
    Vec<u32>,
    RuneFsError,
>)
    requires
        start <= buffer@.len(),
        ids@.len() == n,
        n <= 0xFFFF,
    ensures
        r is Ok <==> start + 4 * n <= buffer@.len(),
        r matches Ok(v) ==> v@.len() == n && forall|j: int|
            0 <= j < n ==> v@[j] == be_u32(buffer@, start + 4 * j),
        start + 4 * n > buffer@.len() ==> r == Err::<Vec<u32>, RuneFsError>(
            RuneFsError::Parse(
                ParseError::Archive(ids@[(buffer@.len() - start as int) / 4]),
            ),
        ),
{
    let len: usize = buffer.len();
    let mut out: Vec<u32> = Vec::new();
    let mut i: usize = 0;
    while i < n
        invariant
            i <= n,
            n <= 0xFFFF,
            len == buffer@.len(),
            start <= len,
            start + 4 * i <= len,
            ids@.len() == n,
            out@.len() == i,
            forall|j: int| 0 <= j < i ==> out@[j] == be_u32(buffer@, start as int + 4 * j),
        decreases n - i,
    {
        if 4 * (i as u64) + 4 > (len - start) as u64 {
            proof {
                assert((len - start as int) / 4 == i as int) by {
                    assert(4 * i <= len - start < 4 * i + 4);
                };
            }
            return Err(RuneFsError::Parse(ParseError::Archive(ids[i])));
        }
        out.push(read_be_u32(buffer, start + 4 * i));
        i += 1;
    }
    Ok(out)
}

/// Reads one big-endian 16-bit column of `n` values starting at `start`;
/// a truncated element is blamed on the archive id at its position.
fn read_u16_column(buffer: &[u8], start: usize, n: usize, ids: &Vec<u32>) -> (r: Result<
    Vec<u32>,
    RuneFsError,
>)
    requires
        start <= buffer@.len(),
        ids@.len() == n,
        n <= 0xFFFF,
    ensures
        r is Ok <==> start + 2 * n <= buffer@.len(),
        r matches Ok(v) ==> v@.len() == n && forall|j: int|
            0 <= j < n ==> v@[j] == be_u16(buffer@, start + 2 * j),
        start + 2 * n > buffer@.len() ==> r == Err::<Vec<u32>, RuneFsError>(
            RuneFsError::Parse(
                ParseError::Archive(ids@[(buffer@.len() - start as int) / 2]),
            ),
        ),
{
    let len: usize = buffer.len();
    let mut out: Vec<u32> = Vec::new();
    let mut i: usize = 0;
    while i < n
        invariant
            i <= n,
            n <= 0xFFFF,
            len == buffer@.len(),
            start <= len,
            start + 2 * i <= len,
            ids@.len() == n,
            out@.len() == i,
            forall|j: int| 0 <= j < i ==> out@[j] == be_u16(buffer@, start as int + 2 * j),
        decreases n - i,
    {
        if 2 * (i as u64) + 2 > (len - start) as u64 {
            proof {
                assert((len - start as int) / 2 == i as int) by {
                    assert(2 * i <= len - start < 2 * i + 2);
                };
            }
            return Err(RuneFsError::Parse(ParseError::Archive(ids[i])));
        }
        out.push(read_be_u16(buffer, start + 2 * i));
        i += 1;
    }
    Ok(out)
}

impl IndexMetadata {
    /// Number of archive descriptors.
    pub fn len(&self) -> (n: usize)
        ensures
            n == self@.len(),
    {
        self.archives.len()
    }

    /// The descriptor at position `i`.
    pub fn get(&self, i: usize) -> (a: &ArchiveData)
        requires
            i < self@.len(),
        ensures
            a@ == self@[i as int],
    {
        &self.archives[i]
    }

    /// Decodes the reference-table directory of one index from its decoded
    /// archive buffer: descriptors stream in ascending archive-id order, each
    /// with its packed-file count, slot-to-file-id delta table, checksum and
    /// revision; protocol 6 adds a table revision and a flags bit may add a
    /// name hash per archive. A truncation inside the head of the table is
    /// reported as unattributable; one inside a descriptor column is blamed
    /// on that descriptor's archive id.
    pub fn from_buffer(buffer: &[u8]) -> (r: Result<IndexMetadata, RuneFsError>)
        ensures
            r is Ok <==> meta_wf(buffer@),
            r matches Ok(m) ==> m@.len() == meta_count(buffer@) && forall|i: int|
                0 <= i < meta_count(buffer@) ==> m@[i] == archive_model(buffer@, i),
            !meta_header_wf(buffer@) ==> r == Err::<IndexMetadata, RuneFsError>(
                RuneFsError::Parse(ParseError::Unknown),
            ),
            meta_header_wf(buffer@) && !meta_wf(buffer@) ==> r == Err::<
                IndexMetadata,
                RuneFsError,
            >(
                RuneFsError::Parse(
                    ParseError::Archive(meta_id_at(buffer@, meta_first_bad(buffer@)) as u32),
                ),
            ),
    {
        let len: usize = buffer.len();
        if len < 1 {
            return Err(RuneFsError::Parse(ParseError::Unknown));
        }
        let protocol: u8 = buffer[0];
        if protocol != 5 && protocol != 6 {
            return Err(RuneFsError::Parse(ParseError::Unknown));
        }
        let flags_off: usize = if protocol >= 6 {
            5
        } else {
            1
        };
        if len < flags_off + 3 {
            return Err(RuneFsError::Parse(ParseError::Unknown));
        }
        let named: bool = buffer[flags_off] & 1 == 1;
        let n_u16: u32 = read_be_u16(buffer, flags_off + 1);
        let n: usize = n_u16 as usize;
        let ids_off: usize = flags_off + 3;
        if len < ids_off + 2 * n {
            return Err(RuneFsError::Parse(ParseError::Unknown));
        }

        // Archive ids: cumulative sum of the delta table.
        let mut ids: Vec<u32> = Vec::new();
        let mut i: usize = 0;
        let mut cur: u64 = 0;
        while i < n
            invariant
                i <= n,
                ids_off + 2 * n <= len,
                len == buffer@.len(),
                ids_off == meta_ids_off(buffer@),
                n == meta_count(buffer@),
                ids@.len() == i,
                forall|j: int| 0 <= j < i ==> ids@[j] == meta_id_at(buffer@, j),
                i > 0 ==> cur == meta_id_at(buffer@, i as int - 1),
                i == 0 ==> cur == 0,
            decreases n - i,
        {
            proof {
                lemma_meta_id_bound(buffer@, i as int);
                if i > 0 {
                    lemma_meta_id_bound(buffer@, i as int - 1);
                }
            }
            let delta: u32 = read_be_u16(buffer, ids_off + 2 * i);
            if i == 0 {
                cur = delta as u64;
            } else {
                cur = cur + delta as u64;
            }
            ids.push(cur as u32);
            i += 1;
        }

        let hashes_off: usize = ids_off + 2 * n;
        let hashes: Option<Vec<u32>> = if named {
            match read_u32_column(buffer, hashes_off, n, &ids) {
                Ok(v) => Some(v),
                Err(e) => {
                    proof {
                        lemma_ec_prefix_mono(buffer@, 0, meta_count(buffer@));
                    }
                    return Err(e);
                },
            }
        } else {
            None
        };
        let crc_off: usize = if named {
            hashes_off + 4 * n
        } else {
            hashes_off
        };
        let crcs: Vec<u32> = match read_u32_column(buffer, crc_off, n, &ids) {
            Ok(v) => v,
            Err(e) => {
                proof {
                    lemma_ec_prefix_mono(buffer@, 0, meta_count(buffer@));
                }
                return Err(e);
            },
        };
        let rev_off: usize = crc_off + 4 * n;
        let revs: Vec<u32> = match read_u32_column(buffer, rev_off, n, &ids) {
            Ok(v) => v,
            Err(e) => {
                proof {
                    lemma_ec_prefix_mono(buffer@, 0, meta_count(buffer@));
                }
                return Err(e);
            },
        };
        let ec_off: usize = rev_off + 4 * n;
        let ecs: Vec<u32> = match read_u16_column(buffer, ec_off, n, &ids) {
            Ok(v) => v,
            Err(e) => {
                proof {
                    lemma_ec_prefix_mono(buffer@, 0, meta_count(buffer@));
                }
                return Err(e);
            },
        };
        let vid_off: usize = ec_off + 2 * n;

        // Per-archive file-id delta tables.
        let mut archives: Vec<ArchiveData> = Vec::new();
        let mut pos: usize = vid_off;
        let mut a: usize = 0;
        while a < n
            invariant
                a <= n,
                len == buffer@.len(),
                n == meta_count(buffer@),
                meta_header_wf(buffer@),
                named == meta_named(buffer@),
                hashes_off == meta_hashes_off(buffer@),
                crc_off == meta_crc_off(buffer@),
                rev_off == meta_rev_off(buffer@),
                ec_off == meta_ec_off(buffer@),
                vid_off == meta_vid_off(buffer@),
                pos == meta_vid_start(buffer@, a as int),
                pos <= len,
                vid_off <= len,
                ids@.len() == n,
                crcs@.len() == n,
                revs@.len() == n,
                ecs@.len() == n,
                named ==> (hashes matches Some(h) && h@.len() == n && forall|j: int|
                    0 <= j < n ==> h@[j] == be_u32(buffer@, meta_hashes_off(buffer@) + 4 * j)),
                !named ==> hashes is None,
                forall|j: int| 0 <= j < n ==> ids@[j] == meta_id_at(buffer@, j),
                forall|j: int| 0 <= j < n ==> crcs@[j] == be_u32(buffer@, meta_crc_off(buffer@) + 4 * j),
                forall|j: int| 0 <= j < n ==> revs@[j] == be_u32(buffer@, meta_rev_off(buffer@) + 4 * j),
                forall|j: int| 0 <= j < n ==> ecs@[j] == meta_entry_count_at(buffer@, j),
                forall|j: int| 0 <= j < a ==> len >= #[trigger] meta_vid_start(buffer@, j + 1),
                archives@.len() == a,
                forall|j: int|
                    0 <= j < a ==> (#[trigger] archives@[j])@ == archive_model(buffer@, j),
            decreases n - a,
        {
            let ec: u32 = ecs[a];
            let ghost a_int = a as int;
            proof {
                assert(meta_ec_prefix(buffer@, a_int + 1) == meta_ec_prefix(buffer@, a_int)
                    + meta_entry_count_at(buffer@, a_int));
            }
            if 2 * (ec as u64) > (len - pos) as u64 {
                proof {
                    lemma_vid_fail_pins(buffer@, 0, a_int);
                    lemma_ec_prefix_mono(buffer@, a_int + 1, meta_count(buffer@));
                }
                return Err(RuneFsError::Parse(ParseError::Archive(ids[a])));
            }
            let mut vids: Vec<u16> = Vec::new();
            let mut k: usize = 0;
            let mut cur: u32 = 0;
            while k < ec as usize
                invariant
                    k <= ec as usize,
                    len == buffer@.len(),
                    pos == meta_vid_start(buffer@, a_int),
                    pos + 2 * (ec as int) <= len,
                    vids@.len() == k,
                    forall|j: int|
                        0 <= j < k ==> vids@[j] == meta_valid_id_at(buffer@, a_int, j),
                    k > 0 ==> cur == meta_valid_id_at(buffer@, a_int, k as int - 1),
                    k == 0 ==> cur == 0,
                    cur < 0x10000,
                decreases ec as usize - k,
            {
                let delta: u32 = read_be_u16(buffer, pos + 2 * k);
                let sum: u32 = cur + delta;
                cur = sum % 0x10000;
                vids.push(cur as u16);
                k += 1;
            }
            archives.push(
                ArchiveData {
                    id: ids[a],
                    name_hash: match &hashes {
                        Some(h) => Some(h[a]),
                        None => None,
                    },
                    crc: crcs[a],
                    revision: revs[a],
                    entry_count: ec as usize,
                    valid_ids: vids,
                },
            );
            proof {
                let m = archive_model(buffer@, a_int);
                assert(archives@[a_int]@.valid_ids =~= m.valid_ids);
                assert(archives@[a_int]@ == m);
            }
            pos = pos + 2 * (ec as usize);
            a += 1;
        }
        proof {
            assert(len >= meta_total_len(buffer@));
        }
        Ok(IndexMetadata { archives })
    }
}

} // verus!
