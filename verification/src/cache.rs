use vstd::prelude::*;

use crate::bytes::be_u16;
use crate::bytes::be_u24;
use crate::bytes::be_u32;
use crate::bytes::read_be_u16;
use crate::bytes::read_be_u24;
use crate::bytes::read_be_u32;
use crate::error::ParseError;
use crate::error::ReadError;
use crate::error::RuneFsError;

verus! {

/// Total size in bytes of one storage sector.
pub const SECTOR_SIZE: usize = 520;

/// Header size of a sector whose owning archive id fits in 16 bits.
pub const SECTOR_HEADER_SIZE: usize = 8;

/// Header size of a sector whose owning archive id needs 32 bits.
pub const SECTOR_EXPANDED_HEADER_SIZE: usize = 10;

/// Next-sector pointer value that terminates a chain.
pub const SECTOR_TERMINATOR: u32 = 0;

/// Size of one directory record: a 3-byte declared length followed by a
/// 3-byte first-sector pointer, both big-endian.
pub const INDEX_RECORD_SIZE: usize = 6;

/// Whether sectors of this archive carry the expanded header, selected by
/// the magnitude of the archive id.
pub open spec fn uses_expanded_header(archive_id: u32) -> bool {
    archive_id > 0xFFFF
}

/// Byte length of a sector header for this archive.
pub open spec fn spec_header_len(archive_id: u32) -> int {
    if uses_expanded_header(archive_id) {
        10
    } else {
        8
    }
}

/// Payload capacity of one sector for this archive.
pub open spec fn spec_data_len(archive_id: u32) -> int {
    520 - spec_header_len(archive_id)
}

/// The owning-archive field of the sector starting at byte `base`.
pub open spec fn hdr_archive(main: Seq<u8>, base: int, archive_id: u32) -> int {
    if uses_expanded_header(archive_id) {
        be_u32(main, base)
    } else {
        be_u16(main, base)
    }
}

/// The chunk-sequence field of the sector starting at byte `base`.
pub open spec fn hdr_chunk(main: Seq<u8>, base: int, archive_id: u32) -> int {
    if uses_expanded_header(archive_id) {
        be_u16(main, base + 4)
    } else {
        be_u16(main, base + 2)
    }
}

/// The next-sector field of the sector starting at byte `base`.
pub open spec fn hdr_next(main: Seq<u8>, base: int, archive_id: u32) -> int {
    if uses_expanded_header(archive_id) {
        be_u24(main, base + 6)
    } else {
        be_u24(main, base + 4)
    }
}

/// The owning-index field of the sector starting at byte `base`.
pub open spec fn hdr_index(main: Seq<u8>, base: int, archive_id: u32) -> u8 {
    if uses_expanded_header(archive_id) {
        main[base + 9]
    } else {
        main[base + 7]
    }
}

/// One step of the chain walk appends the payload of the current sector;
/// `walk` is the whole walk described in the reader's algorithm: it validates
/// each header against the request and the expected chunk number, stops after
/// exactly `remaining` payload bytes, and demands that the chain terminate
/// exactly where the declared length runs out.
pub open spec fn walk(
    main: Seq<u8>,
    index_id: u8,
    archive_id: u32,
    sector: u32,
    chunk: nat,
    remaining: nat,
) -> Result<Seq<u8>, RuneFsError>
    decreases remaining,
{
    if remaining == 0 {
        Ok(Seq::empty())
    } else {
        let base = (sector as int) * 520;
        if base + 520 > main.len() {
            Err(RuneFsError::Parse(ParseError::Sector(archive_id as usize)))
        } else if hdr_archive(main, base, archive_id) != archive_id {
            Err(
                RuneFsError::Read(
                    ReadError::SectorArchiveMismatch(
                        hdr_archive(main, base, archive_id) as u32,
                        archive_id,
                    ),
                ),
            )
        } else if hdr_chunk(main, base, archive_id) != chunk {
            Err(
                RuneFsError::Read(
                    ReadError::SectorChunkMismatch(
                        hdr_chunk(main, base, archive_id) as usize,
                        chunk as usize,
                    ),
                ),
            )
        } else if hdr_index(main, base, archive_id) != index_id {
            Err(
                RuneFsError::Read(
                    ReadError::SectorIndexMismatch(hdr_index(main, base, archive_id), index_id),
                ),
            )
        } else {
            let cap = spec_data_len(archive_id) as nat;
            let take = if remaining < cap {
                remaining
            } else {
                cap
            };
            let piece = main.subrange(
                base + spec_header_len(archive_id),
                base + spec_header_len(archive_id) + take,
            );
            let next = hdr_next(main, base, archive_id) as u32;
            if remaining - take > 0 && next == 0 {
                Err(RuneFsError::Read(ReadError::SectorNextMismatch(0, (sector + 1) as u32)))
            } else if remaining - take == 0 && next != 0 {
                Err(RuneFsError::Read(ReadError::SectorNextMismatch(next, 0)))
            } else {
                match walk(main, index_id, archive_id, next, chunk + 1, (remaining - take) as nat) {
                    Ok(rest) => Ok(piece + rest),
                    Err(e) => Err(e),
                }
            }
        }
    }
}

/// The directory record of `archive_id`: its declared byte length and the
/// first sector of its chain, or `None` when the directory holds no record.
pub open spec fn index_record(dir: Seq<u8>, archive_id: u32) -> Option<(int, u32)> {
    if (archive_id as int + 1) * 6 <= dir.len() {
        Some(
            (
                be_u24(dir, (archive_id as int) * 6),
                be_u24(dir, (archive_id as int) * 6 + 3) as u32,
            ),
        )
    } else {
        None
    }
}

/// An opened, read-only cache: the shared main data store plus one directory
/// of fixed-size records per index.
pub struct Cache {
    main_data: Vec<u8>,
    indexes: Vec<Option<Vec<u8>>>,
}

/// Prefixes a chain-walk outcome with already-assembled bytes.
pub open spec fn prepend(prefix: Seq<u8>, r: Result<Seq<u8>, RuneFsError>) -> Result<
    Seq<u8>,
    RuneFsError,
> {
    match r {
        Ok(s) => Ok(prefix + s),
        Err(e) => Err(e),
    }
}

proof fn lemma_prepend_empty(r: Result<Seq<u8>, RuneFsError>)
    ensures
        prepend(Seq::empty(), r) == r,
{
    match r {
        Ok(s) => {
            assert(Seq::empty() + s =~= s);
        },
        Err(_) => {},
    }
}

proof fn lemma_prepend_assoc(a: Seq<u8>, b: Seq<u8>, r: Result<Seq<u8>, RuneFsError>)
    ensures
        prepend(a + b, r) == prepend(a, prepend(b, r)),
{
    match r {
        Ok(s) => {
            assert((a + b) + s =~= a + (b + s));
        },
        Err(_) => {},
    }
}

/// A successful walk returns exactly `remaining` bytes.
pub proof fn lemma_walk_len(
    main: Seq<u8>,
    index_id: u8,
    archive_id: u32,
    sector: u32,
    chunk: nat,
    remaining: nat,
)
    requires
        walk(main, index_id, archive_id, sector, chunk, remaining) matches Ok(s),
    ensures
        walk(main, index_id, archive_id, sector, chunk, remaining) matches Ok(s) && s.len()
            == remaining,
    decreases remaining,
{
    if remaining == 0 {
    } else {
        let base = (sector as int) * 520;
        let cap = spec_data_len(archive_id) as nat;
        let take = if remaining < cap {
            remaining
        } else {
            cap
        };
        let next = hdr_next(main, base, archive_id) as u32;
        lemma_walk_len(main, index_id, archive_id, next, chunk + 1, (remaining - take) as nat);
    }
}

impl Cache {
    /// The bytes of the main data store.
    pub closed spec fn store(self) -> Seq<u8> {
        self.main_data@
    }

    /// The directory bytes of index `index_id`, or `None` when the cache has
    /// no directory for it.
    pub closed spec fn dir(self, index_id: u8) -> Option<Seq<u8>> {
        if (index_id as int) < self.indexes@.len() {
            match self.indexes@[index_id as int] {
                Some(d) => Some(d@),
                None => None,
            }
        } else {
            None
        }
    }

    /// Opens a cache over externally supplied buffers: the main data store and
    /// one optional directory per index id, in id order. Absent entries, and
    /// ids past the end of `indexes`, have no directory.
    pub fn from_buffers(main_data: Vec<u8>, indexes: Vec<Option<Vec<u8>>>) -> (c: Cache)
        ensures
            c.store() == main_data@,
            forall|i: u8|
                #[trigger] c.dir(i) == (if (i as int) < indexes@.len() {
                    match indexes@[i as int] {
                        Some(d) => Some(d@),
                        None => None,
                    }
                } else {
                    Option::<Seq<u8>>::None
                }),
    {
        Cache { main_data, indexes }
    }

    /// What `read` returns: the reserved-index lookup failures, the directory
    /// record lookup, then the validated chain walk.
    pub open spec fn read_spec(self, index_id: u8, archive_id: u32) -> Result<
        Seq<u8>,
        RuneFsError,
    > {
        match self.dir(index_id) {
            None => {
                if index_id == 255 {
                    Err(RuneFsError::Read(ReadError::ReferenceTableNotFound))
                } else {
                    Err(RuneFsError::Read(ReadError::IndexNotFound(index_id)))
                }
            },
            Some(dir) => {
                match index_record(dir, archive_id) {
                    None => Err(
                        RuneFsError::Read(ReadError::ArchiveNotFound(index_id, archive_id)),
                    ),
                    Some((declared_len, first)) => walk(
                        self.store(),
                        index_id,
                        archive_id,
                        first,
                        0,
                        declared_len as nat,
                    ),
                }
            },
        }
    }

    /// Reads the raw (still-compressed) payload of `(index_id, archive_id)` by
    /// walking its sector chain, validating every header against the request.
    pub fn read(&self, index_id: u8, archive_id: u32) -> (r: Result<Vec<u8>, RuneFsError>)
        ensures
            ({
                let s = self.read_spec(index_id, archive_id);
                match r {
                    Ok(v) => s matches Ok(sv) && v@ == sv,
                    Err(e) => s matches Err(se) && e == se,
                }
            }),
    {
        let idx = index_id as usize;
        if idx >= self.indexes.len() {
            if index_id == 255 {
                return Err(RuneFsError::Read(ReadError::ReferenceTableNotFound));
            } else {
                return Err(RuneFsError::Read(ReadError::IndexNotFound(index_id)));
            }
        }
        let dir: &Vec<u8> = match &self.indexes[idx] {
            Some(d) => d,
            None => {
                if index_id == 255 {
                    return Err(RuneFsError::Read(ReadError::ReferenceTableNotFound));
                } else {
                    return Err(RuneFsError::Read(ReadError::IndexNotFound(index_id)));
                }
            },
        };
        if (archive_id as u64 + 1) * (INDEX_RECORD_SIZE as u64) > dir.len() as u64 {
            return Err(RuneFsError::Read(ReadError::ArchiveNotFound(index_id, archive_id)));
        }
        let off = archive_id as usize * INDEX_RECORD_SIZE;
        let declared_len: u32 = read_be_u24(dir.as_slice(), off);
        let first: u32 = read_be_u24(dir.as_slice(), off + 3);

        let expanded = archive_id > 0xFFFF;
        let header_len: usize = if expanded {
            SECTOR_EXPANDED_HEADER_SIZE
        } else {
            SECTOR_HEADER_SIZE
        };
        let data_len: usize = SECTOR_SIZE - header_len;

        let mut out: Vec<u8> = Vec::new();
        let mut sector: u32 = first;
        let mut chunk: usize = 0;
        let mut remaining: usize = declared_len as usize;

        proof {
            lemma_prepend_empty(walk(self.store(), index_id, archive_id, first, 0, remaining as nat));
        }

        while remaining > 0
            invariant
                self.read_spec(index_id, archive_id) == prepend(
                    out@,
                    walk(
                        self.store(),
                        index_id,
                        archive_id,
                        sector,
                        chunk as nat,
                        remaining as nat,
                    ),
                ),
                remaining <= declared_len,
                chunk <= declared_len - remaining,
                sector <= 0xFFFFFF,
                expanded == uses_expanded_header(archive_id),
                header_len == spec_header_len(archive_id),
                data_len == spec_data_len(archive_id),
            decreases remaining,
        {
            let base_end: u64 = (sector as u64 + 1) * (SECTOR_SIZE as u64);
            if base_end > self.main_data.len() as u64 {
                return Err(RuneFsError::Parse(ParseError::Sector(archive_id as usize)));
            }
            let base = sector as usize * SECTOR_SIZE;
            let main = self.main_data.as_slice();
            let cur_archive: u32 = if expanded {
                read_be_u32(main, base)
            } else {
                read_be_u16(main, base)
            };
            let cur_chunk: u32 = if expanded {
                read_be_u16(main, base + 4)
            } else {
                read_be_u16(main, base + 2)
            };
            let cur_next: u32 = if expanded {
                read_be_u24(main, base + 6)
            } else {
                read_be_u24(main, base + 4)
            };
            let cur_index: u8 = if expanded {
                main[base + 9]
            } else {
                main[base + 7]
            };
            if cur_archive != archive_id {
                return Err(
                    RuneFsError::Read(ReadError::SectorArchiveMismatch(cur_archive, archive_id)),
                );
            }
            if cur_chunk as usize != chunk {
                return Err(
                    RuneFsError::Read(ReadError::SectorChunkMismatch(cur_chunk as usize, chunk)),
                );
            }
            if cur_index != index_id {
                return Err(
                    RuneFsError::Read(ReadError::SectorIndexMismatch(cur_index, index_id)),
                );
            }
            let take: usize = if remaining < data_len {
                remaining
            } else {
                data_len
            };
            let ghost out_before = out@;
            let mut j: usize = 0;
            while j < take
                invariant
                    j <= take,
                    base + header_len + take <= main@.len(),
                    base + header_len + take <= usize::MAX,
                    out@ == out_before + main@.subrange(
                        base + header_len,
                        base + header_len + j,
                    ),
                decreases take - j,
            {
                proof {
                    assert(main@.subrange(base + header_len, base + header_len + j + 1)
                        =~= main@.subrange(base + header_len, base + header_len + j).push(
                        main@[base + header_len + j],
                    ));
                }
                out.push(main[base + header_len + j]);
                j += 1;
            }
            let ghost piece = main@.subrange(
                base as int + header_len as int,
                base as int + header_len as int + take as int,
            );
            remaining -= take;
            chunk += 1;
            if remaining > 0 && cur_next == SECTOR_TERMINATOR {
                return Err(RuneFsError::Read(ReadError::SectorNextMismatch(0, sector + 1)));
            }
            if remaining == 0 && cur_next != SECTOR_TERMINATOR {
                return Err(RuneFsError::Read(ReadError::SectorNextMismatch(cur_next, 0)));
            }
            proof {
                lemma_prepend_assoc(
                    out_before,
                    piece,
                    walk(
                        self.store(),
                        index_id,
                        archive_id,
                        cur_next,
                        chunk as nat,
                        remaining as nat,
                    ),
                );
            }
            sector = cur_next;
        }
        proof {
            assert(out@ + Seq::<u8>::empty() =~= out@);
        }
        Ok(out)
    }
}

} // verus!
