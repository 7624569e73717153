use vstd::prelude::*;

use vstd::arithmetic::div_mod::lemma_fundamental_div_mod_converse;

use crate::bytes::append_range;
use crate::bytes::le_i32;
use crate::bytes::read_le_i32;
use crate::error::ParseError;
use crate::error::RuneFsError;

verus! {

/// One reconstructed file of an archive: its local slot index and its bytes.
pub struct ArchiveFile {
    pub id: u32,
    pub data: Vec<u8>,
}

/// Mathematical model of one reconstructed file.
pub ghost struct FileModel {
    pub id: int,
    pub data: Seq<u8>,
}

impl View for ArchiveFile {
    type V = FileModel;

    open spec fn view(&self) -> FileModel {
        FileModel { id: self.id as int, data: self.data@ }
    }
}

/// Number of chunks each file was split into: the last byte of the buffer.
pub open spec fn group_chunks(s: Seq<u8>) -> int {
    s[s.len() - 1] as int
}

/// Offset where the trailing length table's delta entries begin, which is
/// also the length of the span data the table describes.
pub open spec fn group_data_len(s: Seq<u8>, n: int) -> int {
    s.len() - 1 - 4 * group_chunks(s) * n
}

/// The stored little-endian signed delta of chunk `c` of file `f`.
pub open spec fn group_delta(s: Seq<u8>, n: int, c: int, f: int) -> int {
    le_i32(s, group_data_len(s, n) + 4 * (c * n + f))
}

/// Length of chunk `c` of file `f`: the previous chunk's length of the same
/// file plus the stored delta.
pub open spec fn chunk_len(s: Seq<u8>, n: int, f: int, c: int) -> int
    decreases c,
{
    if c <= 0 {
        group_delta(s, n, 0, f)
    } else {
        chunk_len(s, n, f, c - 1) + group_delta(s, n, c, f)
    }
}

/// Length of the span at flat position `i` of the chunk-major span order.
pub open spec fn chunk_len_at(s: Seq<u8>, n: int, i: int) -> int {
    chunk_len(s, n, i % n, i / n)
}

/// Total length of the spans before flat position `i`.
pub open spec fn span_prefix(s: Seq<u8>, n: int, i: int) -> int
    decreases i,
{
    if i <= 0 {
        0
    } else {
        span_prefix(s, n, i - 1) + chunk_len_at(s, n, i - 1)
    }
}

/// The bytes of the span at flat position `i`.
pub open spec fn span_at(s: Seq<u8>, n: int, i: int) -> Seq<u8> {
    s.subrange(span_prefix(s, n, i), span_prefix(s, n, i) + chunk_len_at(s, n, i))
}

/// The first `c` chunks of file `f`, concatenated in chunk order.
pub open spec fn file_data_upto(s: Seq<u8>, n: int, f: int, c: int) -> Seq<u8>
    decreases c,
{
    if c <= 0 {
        Seq::empty()
    } else {
        file_data_upto(s, n, f, c - 1) + span_at(s, n, (c - 1) * n + f)
    }
}

/// All bytes of file `f` of the decoded archive buffer.
pub open spec fn file_data(s: Seq<u8>, n: int, f: int) -> Seq<u8> {
    file_data_upto(s, n, f, group_chunks(s))
}

/// Whether the trailing length table is well formed for `n` packed files:
/// at least one chunk per file, a complete table, no negative reconstructed
/// span length, and spans that exactly fill the bytes before the table.
pub open spec fn group_wf(s: Seq<u8>, n: int) -> bool {
    &&& s.len() >= 1
    &&& group_chunks(s) >= 1
    &&& 1 + 4 * group_chunks(s) * n <= s.len()
    &&& forall|i: int| 0 <= i < group_chunks(s) * n ==> chunk_len_at(s, n, i) >= 0
    &&& span_prefix(s, n, group_chunks(s) * n) == group_data_len(s, n)
}

/// Span prefixes grow monotonically while the span lengths are nonnegative.
proof fn lemma_span_prefix_mono(s: Seq<u8>, n: int, a: int, b: int)
    requires
        0 <= a <= b,
        forall|i: int| a <= i < b ==> chunk_len_at(s, n, i) >= 0,
    ensures
        span_prefix(s, n, a) <= span_prefix(s, n, b),
    decreases b - a,
{
    if a < b {
        lemma_span_prefix_mono(s, n, a, b - 1);
    }
}

/// The ordered file group packed inside one decoded archive buffer.
pub struct ArchiveFileGroup {
    pub files: Vec<ArchiveFile>,
}

impl View for ArchiveFileGroup {
    type V = Seq<FileModel>;

    open spec fn view(&self) -> Seq<FileModel> {
        self.files@.map_values(|a: ArchiveFile| a@)
    }
}

impl ArchiveFileGroup {
    /// Number of files in the group.
    pub fn len(&self) -> (n: usize)
        ensures
            n == self@.len(),
    {
        self.files.len()
    }

    /// The file at slot `i`.
    pub fn get(&self, i: usize) -> (a: &ArchiveFile)
        requires
            i < self@.len(),
        ensures
            a@ == self@[i as int],
    {
        &self.files[i]
    }

    /// Splits a decoded archive buffer into its `entry_count` packed files.
    /// The buffer's trailing length table holds, per chunk and file, a
    /// little-endian signed delta of that chunk's length against the previous
    /// chunk of the same file; the last byte is the chunk count. Spans are
    /// emitted grouped per file in ascending slot order. A table that the
    /// buffer cannot support is blamed on the parent archive `parent_id`.
    pub fn from_buffer(buffer: &[u8], entry_count: usize, parent_id: usize) -> (r: Result<
        ArchiveFileGroup,
        RuneFsError,
    >)
        requires
            entry_count <= 0xFFFF,
        ensures
            r is Ok <==> group_wf(buffer@, entry_count as int),
            r matches Ok(g) ==> g@.len() == entry_count && forall|f: int|
                0 <= f < entry_count ==> (#[trigger] g@[f]).id == f && g@[f].data == file_data(
                    buffer@,
                    entry_count as int,
                    f,
                ),
            !group_wf(buffer@, entry_count as int) ==> r == Err::<ArchiveFileGroup, RuneFsError>(
                RuneFsError::Parse(ParseError::Sector(parent_id)),
            ),
    {
        let ghost s = buffer@;
        let ghost n_int = entry_count as int;
        let len: usize = buffer.len();
        if len < 1 {
            return Err(RuneFsError::Parse(ParseError::Sector(parent_id)));
        }
        let chunks: usize = buffer[len - 1] as usize;
        if chunks < 1 {
            return Err(RuneFsError::Parse(ParseError::Sector(parent_id)));
        }
        proof {
            assert(4 * chunks * entry_count <= 0x3FC0000) by (nonlinear_arith)
                requires
                    chunks <= 255,
                    entry_count <= 0xFFFF,
            ;
        }
        let table_deltas: usize = 4 * chunks * entry_count;
        if table_deltas + 1 > len {
            return Err(RuneFsError::Parse(ParseError::Sector(parent_id)));
        }
        let data_len: usize = len - 1 - table_deltas;
        proof {
            assert(chunks * entry_count <= 0xFF0000) by (nonlinear_arith)
                requires
                    chunks <= 255,
                    entry_count <= 0xFFFF,
            ;
        }
        let total_spans: usize = chunks * entry_count;
        proof {
            assert(table_deltas == 4 * total_spans) by (nonlinear_arith)
                requires
                    table_deltas == 4 * chunks * entry_count,
                    total_spans == chunks * entry_count,
            ;
        }

        // First pass: reconstruct every span length in storage (chunk-major)
        // order, with its offset, rejecting tables that do not exactly fill
        // the data region.
        let mut spans: Vec<usize> = Vec::new();
        let mut offs: Vec<usize> = Vec::new();
        let mut prev: Vec<usize> = Vec::new();
        let mut f0: usize = 0;
        while f0 < entry_count
            invariant
                f0 <= entry_count,
                prev@.len() == f0,
                forall|j: int| 0 <= j < f0 ==> prev@[j] == 0,
            decreases entry_count - f0,
        {
            prev.push(0);
            f0 += 1;
        }
        let mut total: usize = 0;
        let mut idx: usize = 0;
        while idx < total_spans
            invariant
                idx <= total_spans,
                s == buffer@,
                total_spans == chunks * entry_count,
                chunks == group_chunks(s),
                chunks >= 1,
                chunks <= 255,
                entry_count <= 0xFFFF,
                len == s.len(),
                data_len == group_data_len(s, n_int),
                data_len + 1 + 4 * total_spans == len,
                n_int == entry_count as int,
                prev@.len() == entry_count,
                forall|f2: int| 0 <= f2 < entry_count ==> prev@[f2] <= data_len,
                spans@.len() == idx,
                offs@.len() == idx,
                forall|i: int| 0 <= i < idx ==> spans@[i] == chunk_len_at(s, n_int, i),
                forall|i: int| 0 <= i < idx ==> offs@[i] == span_prefix(s, n_int, i),
                total == span_prefix(s, n_int, idx as int),
                total <= data_len,
                forall|f2: int|
                    0 <= f2 < entry_count ==> prev@[f2] as int == (if f2 < idx as int % n_int {
                        chunk_len(s, n_int, f2, idx as int / n_int)
                    } else if idx as int / n_int > 0 {
                        chunk_len(s, n_int, f2, idx as int / n_int - 1)
                    } else {
                        0
                    }),
            decreases total_spans - idx,
        {
            proof {
                if entry_count == 0 {
                    assert(total_spans == 0) by (nonlinear_arith)
                        requires
                            total_spans == chunks * entry_count,
                            entry_count == 0,
                    ;
                }
            }
            let f: usize = idx % entry_count;
            let c: usize = idx / entry_count;
            let ghost c_int = c as int;
            let ghost f_int = f as int;
            let delta: i32 = read_le_i32(buffer, data_len + 4 * idx);
            proof {
                vstd::arithmetic::div_mod::lemma_fundamental_div_mod(idx as int, n_int);
                assert(c_int * n_int == n_int * c_int) by (nonlinear_arith);
                assert(c_int * n_int + f_int == idx as int);
                assert(group_delta(s, n_int, c_int, f_int) == delta as int);
            }
            let cur: usize;
            if delta >= 0 {
                let d: usize = delta as usize;
                if d > data_len - prev[f] || prev[f] + d > data_len - total {
                    proof {
                        let bad = idx as int;
                        assert(chunk_len_at(s, n_int, bad) == prev@[f_int] + delta as int);
                        if group_wf(s, n_int) {
                            lemma_span_prefix_mono(
                                s,
                                n_int,
                                bad + 1,
                                group_chunks(s) * n_int,
                            );
                            assert(false);
                        }
                    }
                    return Err(RuneFsError::Parse(ParseError::Sector(parent_id)));
                }
                cur = prev[f] + d;
            } else {
                let d: usize = (-(delta as i64)) as usize;
                if d > prev[f] {
                    proof {
                        let bad = idx as int;
                        assert(chunk_len_at(s, n_int, bad) == prev@[f_int] + delta as int);
                        assert(!group_wf(s, n_int));
                    }
                    return Err(RuneFsError::Parse(ParseError::Sector(parent_id)));
                }
                cur = prev[f] - d;
                if cur > data_len - total {
                    proof {
                        let bad = idx as int;
                        assert(chunk_len_at(s, n_int, bad) == prev@[f_int] + delta as int);
                        if group_wf(s, n_int) {
                            lemma_span_prefix_mono(
                                s,
                                n_int,
                                bad + 1,
                                group_chunks(s) * n_int,
                            );
                            assert(false);
                        }
                    }
                    return Err(RuneFsError::Parse(ParseError::Sector(parent_id)));
                }
            }
            proof {
                assert(chunk_len_at(s, n_int, idx as int) == cur as int);
            }
            offs.push(total);
            spans.push(cur);
            total = total + cur;
            prev.set(f, cur);
            proof {
                if f_int + 1 < n_int {
                    lemma_fundamental_div_mod_converse(
                        idx as int + 1,
                        n_int,
                        c_int,
                        f_int + 1,
                    );
                } else {
                    assert((c_int + 1) * n_int == c_int * n_int + n_int) by (nonlinear_arith);
                    lemma_fundamental_div_mod_converse(idx as int + 1, n_int, c_int + 1, 0);
                }
            }
            idx += 1;
        }
        if total != data_len {
            return Err(RuneFsError::Parse(ParseError::Sector(parent_id)));
        }

        // Second pass: concatenate each file's chunks in ascending slot order.
        let mut files: Vec<ArchiveFile> = Vec::new();
        let mut f: usize = 0;
        while f < entry_count
            invariant
                f <= entry_count,
                s == buffer@,
                total_spans == chunks * entry_count,
                chunks == group_chunks(s),
                chunks >= 1,
                chunks <= 255,
                entry_count <= 0xFFFF,
                len == s.len(),
                n_int == entry_count as int,
                data_len == group_data_len(s, n_int),
                data_len + 1 + 4 * total_spans == len,
                spans@.len() == total_spans,
                offs@.len() == total_spans,
                forall|i: int| 0 <= i < total_spans ==> spans@[i] == chunk_len_at(s, n_int, i),
                forall|i: int| 0 <= i < total_spans ==> offs@[i] == span_prefix(s, n_int, i),
                span_prefix(s, n_int, total_spans as int) == data_len,
                files@.len() == f,
                forall|j: int|
                    0 <= j < f ==> (#[trigger] files@[j])@.id == j && files@[j]@.data == file_data(
                        s,
                        n_int,
                        j,
                    ),
            decreases entry_count - f,
        {
            let mut data: Vec<u8> = Vec::new();
            let mut c: usize = 0;
            while c < chunks
                invariant
                    c <= chunks,
                    f < entry_count,
                    s == buffer@,
                    total_spans == chunks * entry_count,
                    chunks == group_chunks(s),
                    chunks <= 255,
                    entry_count <= 0xFFFF,
                    len == s.len(),
                    n_int == entry_count as int,
                    data_len == group_data_len(s, n_int),
                    data_len + 1 + 4 * total_spans == len,
                    spans@.len() == total_spans,
                    offs@.len() == total_spans,
                    forall|i: int| 0 <= i < total_spans ==> spans@[i] == chunk_len_at(s, n_int, i),
                    forall|i: int| 0 <= i < total_spans ==> offs@[i] == span_prefix(s, n_int, i),
                    span_prefix(s, n_int, total_spans as int) == data_len,
                    data@ == file_data_upto(s, n_int, f as int, c as int),
                decreases chunks - c,
            {
                proof {
                    assert(c * entry_count + f < 0x1000000) by (nonlinear_arith)
                        requires
                            c < chunks,
                            chunks <= 255,
                            f < entry_count,
                            entry_count <= 0xFFFF,
                    ;
                }
                let flat: usize = c * entry_count + f;
                proof {
                    lemma_fundamental_div_mod_converse(flat as int, n_int, c as int, f as int);
                    assert(flat < total_spans) by (nonlinear_arith)
                        requires
                            c < chunks,
                            f < entry_count,
                            flat == c * entry_count + f,
                            total_spans == chunks * entry_count,
                    ;
                    assert(span_prefix(s, n_int, flat as int + 1) == span_prefix(
                        s,
                        n_int,
                        flat as int,
                    ) + chunk_len_at(s, n_int, flat as int));
                    lemma_span_prefix_mono(s, n_int, flat as int + 1, total_spans as int);
                    lemma_span_prefix_mono(s, n_int, 0, flat as int);
                }
                append_range(&mut data, buffer, offs[flat], spans[flat]);
                c += 1;
            }
            files.push(ArchiveFile { id: f as u32, data });
            f += 1;
        }
        Ok(ArchiveFileGroup { files })
    }
}

} // verus!
