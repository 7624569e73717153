use vstd::prelude::*;

use std::collections::HashMap;

use crate::cache::Cache;
use crate::codec::decode;
use crate::codec::decode_ok;
use crate::codec::codec_raw_out;
use crate::error::ReadError;
use crate::error::RuneFsError;
use crate::group::ArchiveFileGroup;
use crate::group::file_data;
use crate::group::group_wf;
use crate::meta::ArchiveModel;
use crate::meta::IndexMetadata;
use crate::meta::archive_model;
use crate::meta::meta_count;
use crate::meta::meta_wf;

verus! {

broadcast use vstd::std_specs::hash::group_hash_axioms;

/// Capability of definition types: they decode themselves from one packed
/// file's bytes. `parsed` is the mathematical description of that decoding;
/// `new` must realize it exactly, failing precisely where it yields nothing.
pub trait Definition: Sized {
    /// What decoding yields for this id and buffer, or `None` when the
    /// buffer is rejected.
    spec fn parsed(id: u32, data: Seq<u8>) -> Option<Self>;

    /// Decodes one definition from its packed-file buffer.
    fn new(id: u32, buffer: &[u8]) -> (r: Result<Self, RuneFsError>)
        ensures
            r is Ok <==> Self::parsed(id, buffer@) is Some,
            r matches Ok(d) ==> Self::parsed(id, buffer@) == Some(d),
    ;
}

/// What `read` followed by `decode` yields for `(index_id, archive_id)`, or
/// `None` when either step fails.
pub open spec fn decoded_of(c: Cache, index_id: u8, archive_id: u32) -> Option<Seq<u8>> {
    match c.read_spec(index_id, archive_id) {
        Ok(s) => if decode_ok(s) {
            Some(codec_raw_out(s).unwrap())
        } else {
            None
        },
        Err(_) => None,
    }
}

/// The archive descriptors of one index, obtained by reading and decoding its
/// reference-table archive, or `None` when any step fails.
pub open spec fn table_model(c: Cache, index_id: u8) -> Option<Seq<ArchiveModel>> {
    match decoded_of(c, 255, index_id as u32) {
        Some(t) => if meta_wf(t) {
            Some(Seq::new(meta_count(t) as nat, |i: int| archive_model(t, i)))
        } else {
            None
        },
        None => None,
    }
}

/// Position of the first descriptor with archive id `id`.
pub open spec fn find_archive(models: Seq<ArchiveModel>, id: int) -> Option<int>
    decreases models.len(),
{
    if models.len() == 0 {
        None
    } else if models[0].id == id {
        Some(0)
    } else {
        match find_archive(models.drop_first(), id) {
            Some(i) => Some(i + 1),
            None => None,
        }
    }
}

proof fn lemma_find_archive_hit(models: Seq<ArchiveModel>, id: int, pos: int)
    requires
        0 <= pos < models.len(),
        models[pos].id == id,
        forall|j: int| 0 <= j < pos ==> models[j].id != id,
    ensures
        find_archive(models, id) == Some(pos),
    decreases pos,
{
    if pos == 0 {
    } else {
        lemma_find_archive_hit(models.drop_first(), id, pos - 1);
    }
}

proof fn lemma_find_archive_miss(models: Seq<ArchiveModel>, id: int)
    requires
        forall|j: int| 0 <= j < models.len() ==> models[j].id != id,
    ensures
        find_archive(models, id) is None,
    decreases models.len(),
{
    if models.len() > 0 {
        lemma_find_archive_miss(models.drop_first(), id);
    }
}

proof fn lemma_slot_map_none<D: Definition>(
    vids: Seq<int>,
    decoded: Seq<u8>,
    n: int,
    k: int,
    k2: int,
)
    requires
        0 <= k <= k2,
        slot_map_upto::<D>(vids, decoded, n, k) is None,
    ensures
        slot_map_upto::<D>(vids, decoded, n, k2) is None,
    decreases k2 - k,
{
    if k < k2 {
        lemma_slot_map_none::<D>(vids, decoded, n, k, k2 - 1);
    }
}

proof fn lemma_block_map_none<D: Definition>(
    m: Map<u32, D>,
    vids: Seq<int>,
    decoded: Seq<u8>,
    n: int,
    base: int,
    k: int,
    k2: int,
)
    requires
        0 <= k <= k2,
        block_map_upto::<D>(m, vids, decoded, n, base, k) is None,
    ensures
        block_map_upto::<D>(m, vids, decoded, n, base, k2) is None,
    decreases k2 - k,
{
    if k < k2 {
        lemma_block_map_none::<D>(m, vids, decoded, n, base, k, k2 - 1);
    }
}

proof fn lemma_index_map_none<D: Definition>(
    c: Cache,
    index_id: u8,
    models: Seq<ArchiveModel>,
    a: int,
    a2: int,
)
    requires
        0 <= a <= a2,
        index_map_upto::<D>(c, index_id, models, a) is None,
    ensures
        index_map_upto::<D>(c, index_id, models, a2) is None,
    decreases a2 - a,
{
    if a < a2 {
        lemma_index_map_none::<D>(c, index_id, models, a, a2 - 1);
    }
}

/// The id-keyed map built from the first `k` slots of one decoded archive:
/// slot `j` decodes under the sparse file id `vids[j]`, later slots winning
/// on equal ids; `None` when any slot's definition is rejected.
pub open spec fn slot_map_upto<D: Definition>(
    vids: Seq<int>,
    decoded: Seq<u8>,
    n: int,
    k: int,
) -> Option<Map<u16, D>>
    decreases k,
{
    if k <= 0 {
        Some(Map::empty())
    } else {
        match slot_map_upto::<D>(vids, decoded, n, k - 1) {
            None => None,
            Some(m) => {
                match D::parsed(vids[k - 1] as u32, file_data(decoded, n, k - 1)) {
                    Some(d) => Some(m.insert(vids[k - 1] as u16, d)),
                    None => None,
                }
            },
        }
    }
}

/// What fetching one archive's definitions from the cache yields: the
/// reference table resolves the archive's descriptor, the archive is read,
/// decoded and split, and every packed file decodes under its remapped id.
pub open spec fn archive_map_spec<D: Definition>(
    c: Cache,
    index_id: u8,
    archive_id: u32,
) -> Option<Map<u16, D>> {
    match table_model(c, index_id) {
        None => None,
        Some(models) => {
            match find_archive(models, archive_id as int) {
                None => None,
                Some(pos) => {
                    let model = models[pos];
                    match decoded_of(c, index_id, archive_id) {
                        None => None,
                        Some(decoded) => {
                            if group_wf(decoded, model.entry_count) {
                                slot_map_upto::<D>(
                                    model.valid_ids,
                                    decoded,
                                    model.entry_count,
                                    model.entry_count,
                                )
                            } else {
                                None
                            }
                        },
                    }
                },
            }
        },
    }
}

/// Fetches every definition packed in archive `archive_id` of `index_id`,
/// keyed by sparse file id; succeeds exactly when the whole pipeline,
/// reference table included, decodes.
#[verifier::loop_isolation(false)]
#[verifier::rlimit(100)]
pub fn fetch_from_archive<D: Definition>(cache: &Cache, index_id: u8, archive_id: u32) -> (r:
    Result<HashMap<u16, D>, RuneFsError>)
    ensures
        r is Ok <==> archive_map_spec::<D>(*cache, index_id, archive_id) is Some,
        r matches Ok(m) ==> Some(m@) == archive_map_spec::<D>(*cache, index_id, archive_id),
        cache.read_spec(255, index_id as u32) matches Err(e0) ==> (r matches Err(e) && e == e0),
        table_model(*cache, index_id) matches Some(models) && find_archive(
            models,
            archive_id as int,
        ) is None ==> r == Err::<HashMap<u16, D>, RuneFsError>(
            RuneFsError::Read(ReadError::ArchiveNotFound(index_id, archive_id)),
        ),
{
    let buffer = match cache.read(crate::REFERENCE_TABLE_ID, index_id as u32) {
        Ok(b) => b,
        Err(e) => {
            return Err(e);
        },
    };
    let table = match decode(buffer.as_slice()) {
        Ok(b) => b,
        Err(e) => {
            return Err(e);
        },
    };
    let metadata = match IndexMetadata::from_buffer(table.as_slice()) {
        Ok(m) => m,
        Err(e) => {
            return Err(e);
        },
    };
    let ghost models = table_model(*cache, index_id).unwrap();
    proof {
        assert(metadata@ =~= models);
    }
    let n = metadata.len();
    let mut scan: usize = 0;
    let mut pos: usize = n;
    while scan < n
        invariant
            scan <= n,
            pos == n || (pos < scan && models[pos as int].id == archive_id as int),
            pos == n ==> forall|j: int| 0 <= j < scan ==> models[j].id != archive_id as int,
            pos < n ==> forall|j: int| 0 <= j < pos ==> models[j].id != archive_id as int,
        decreases n - scan,
    {
        if pos == n && metadata.get(scan).id == archive_id {
            pos = scan;
        }
        scan += 1;
    }
    if pos == n {
        proof {
            lemma_find_archive_miss(models, archive_id as int);
        }
        return Err(RuneFsError::Read(ReadError::ArchiveNotFound(index_id, archive_id)));
    }
    proof {
        lemma_find_archive_hit(models, archive_id as int, pos as int);
    }
    let archive = metadata.get(pos);
    let raw = match cache.read(index_id, archive_id) {
        Ok(b) => b,
        Err(e) => {
            return Err(e);
        },
    };
    let decoded = match decode(raw.as_slice()) {
        Ok(b) => b,
        Err(e) => {
            return Err(e);
        },
    };
    let group = match ArchiveFileGroup::from_buffer(
        decoded.as_slice(),
        archive.entry_count,
        archive.id as usize,
    ) {
        Ok(g) => g,
        Err(e) => {
            return Err(e);
        },
    };
    let ghost model = models[pos as int];
    proof {
        let t = decoded_of(*cache, 255, index_id as u32).unwrap();
        assert(model == archive_model(t, pos as int));
        assert(model.valid_ids.len() == model.entry_count);
        assert(archive@.valid_ids.len() == archive.valid_ids@.len());
    }
    let mut map: HashMap<u16, D> = HashMap::new();
    let count = group.len();
    let mut k: usize = 0;
    while k < count
        invariant
            k <= count,
            count == model.entry_count,
            count == archive@.entry_count,
            archive@ == model,
            archive.valid_ids@.len() == count,
            group@.len() == count,
            forall|f: int|
                0 <= f < count ==> (#[trigger] group@[f]).id == f && group@[f].data == file_data(
                    decoded@,
                    model.entry_count,
                    f,
                ),
            decoded@ == decoded_of(*cache, index_id, archive_id).unwrap(),
            Some(map@) == slot_map_upto::<D>(
                model.valid_ids,
                decoded@,
                model.entry_count,
                k as int,
            ),
        decreases count - k,
    {
        let file = group.get(k);
        let slot = file.id as usize;
        let key: u16 = archive.valid_ids[slot];
        let d = match D::new(key as u32, file.data.as_slice()) {
            Ok(d) => d,
            Err(e) => {
                proof {
                    lemma_slot_map_none::<D>(
                        model.valid_ids,
                        decoded@,
                        model.entry_count,
                        k as int + 1,
                        model.entry_count,
                    );
                }
                return Err(e);
            },
        };
        map.insert(key, d);
        k += 1;
    }
    Ok(map)
}

/// The id-keyed map built from the first `k` slots of one decoded archive of
/// an index sweep, each slot keyed `base` plus its remapped file id.
pub open spec fn block_map_upto<D: Definition>(
    m: Map<u32, D>,
    vids: Seq<int>,
    decoded: Seq<u8>,
    n: int,
    base: int,
    k: int,
) -> Option<Map<u32, D>>
    decreases k,
{
    if k <= 0 {
        Some(m)
    } else {
        match block_map_upto::<D>(m, vids, decoded, n, base, k - 1) {
            None => None,
            Some(m2) => {
                match D::parsed((base + vids[k - 1]) as u32, file_data(decoded, n, k - 1)) {
                    Some(d) => Some(m2.insert((base + vids[k - 1]) as u32, d)),
                    None => None,
                }
            },
        }
    }
}

/// The id-keyed map built from the first `a` archives of one index: archive
/// position `p` contributes its packed files under the id block starting at
/// `256 * p`, or `None` when any archive fails to read, decode or split.
pub open spec fn index_map_upto<D: Definition>(
    c: Cache,
    index_id: u8,
    models: Seq<ArchiveModel>,
    a: int,
) -> Option<Map<u32, D>>
    decreases a,
{
    if a <= 0 {
        Some(Map::empty())
    } else {
        match index_map_upto::<D>(c, index_id, models, a - 1) {
            None => None,
            Some(m) => {
                let model = models[a - 1];
                match decoded_of(c, index_id, model.id as u32) {
                    None => None,
                    Some(decoded) => {
                        if group_wf(decoded, model.entry_count) {
                            block_map_upto::<D>(
                                m,
                                model.valid_ids,
                                decoded,
                                model.entry_count,
                                256 * (a - 1),
                                model.entry_count,
                            )
                        } else {
                            None
                        }
                    },
                }
            },
        }
    }
}

/// What fetching a whole index yields: every archive of the index read,
/// decoded and split, its files keyed in 256-wide id blocks per archive
/// position.
pub open spec fn index_map_spec<D: Definition>(c: Cache, index_id: u8) -> Option<Map<u32, D>> {
    match table_model(c, index_id) {
        None => None,
        Some(models) => index_map_upto::<D>(c, index_id, models, models.len() as int),
    }
}

/// Fetches one definition per packed file from every archive in the index,
/// each archive contributing a 256-wide block of ids; succeeds exactly when
/// every archive of the index decodes.
#[verifier::loop_isolation(false)]
#[verifier::rlimit(100)]
pub fn fetch_from_index<D: Definition>(cache: &Cache, index_id: u8) -> (r: Result<
    HashMap<u32, D>,
    RuneFsError,
>)
    ensures
        r is Ok <==> index_map_spec::<D>(*cache, index_id) is Some,
        r matches Ok(m) ==> Some(m@) == index_map_spec::<D>(*cache, index_id),
        cache.read_spec(255, index_id as u32) matches Err(e0) ==> (r matches Err(e) && e == e0),
{
    let buffer = match cache.read(crate::REFERENCE_TABLE_ID, index_id as u32) {
        Ok(b) => b,
        Err(e) => {
            return Err(e);
        },
    };
    let table = match decode(buffer.as_slice()) {
        Ok(b) => b,
        Err(e) => {
            return Err(e);
        },
    };
    let metadata = match IndexMetadata::from_buffer(table.as_slice()) {
        Ok(m) => m,
        Err(e) => {
            return Err(e);
        },
    };
    let ghost models = table_model(*cache, index_id).unwrap();
    proof {
        assert(metadata@ =~= models);
    }
    let mut definitions: HashMap<u32, D> = HashMap::new();
    let mut base_id: usize = 0;
    let n = metadata.len();
    let mut a: usize = 0;
    while a < n
        invariant
            a <= n,
            n == models.len(),
            n <= 0xFFFF,
            metadata@ == models,
            base_id == 256 * a,
            Some(definitions@) == index_map_upto::<D>(*cache, index_id, models, a as int),
        decreases n - a,
    {
        let archive = metadata.get(a);
        let ghost model = models[a as int];
        let raw = match cache.read(index_id, archive.id) {
            Ok(b) => b,
            Err(e) => {
                proof {
                    lemma_index_map_none::<D>(
                        *cache,
                        index_id,
                        models,
                        a as int + 1,
                        models.len() as int,
                    );
                }
                return Err(e);
            },
        };
        let decoded = match decode(raw.as_slice()) {
            Ok(b) => b,
            Err(e) => {
                proof {
                    lemma_index_map_none::<D>(
                        *cache,
                        index_id,
                        models,
                        a as int + 1,
                        models.len() as int,
                    );
                }
                return Err(e);
            },
        };
        let group = match ArchiveFileGroup::from_buffer(
            decoded.as_slice(),
            archive.entry_count,
            archive.id as usize,
        ) {
            Ok(g) => g,
            Err(e) => {
                proof {
                    lemma_index_map_none::<D>(
                        *cache,
                        index_id,
                        models,
                        a as int + 1,
                        models.len() as int,
                    );
                }
                return Err(e);
            },
        };
        proof {
            let t = decoded_of(*cache, 255, index_id as u32).unwrap();
            assert(model == archive_model(t, a as int));
            assert(model.valid_ids.len() == model.entry_count);
            assert(archive@.valid_ids.len() == archive.valid_ids@.len());
        }
        let count = group.len();
        let mut k: usize = 0;
        while k < count
            invariant
                k <= count,
                a < n,
                n <= 0xFFFF,
                base_id == 256 * a,
                count == model.entry_count,
                count == archive@.entry_count,
                archive@ == model,
                archive.valid_ids@.len() == count,
                count <= 0xFFFF,
                group@.len() == count,
                forall|f: int|
                    0 <= f < count ==> (#[trigger] group@[f]).id == f && group@[f].data
                        == file_data(decoded@, model.entry_count, f),
                decoded@ == decoded_of(*cache, index_id, model.id as u32).unwrap(),
                block_map_upto::<D>(
                    index_map_upto::<D>(*cache, index_id, models, a as int).unwrap(),
                    model.valid_ids,
                    decoded@,
                    model.entry_count,
                    256 * (a as int),
                    k as int,
                ) == Some(definitions@),
                index_map_upto::<D>(*cache, index_id, models, a as int) is Some,
            decreases count - k,
        {
            let file = group.get(k);
            let slot = file.id as usize;
            let vid: u16 = archive.valid_ids[slot];
            let key: u32 = (base_id as u32) + (vid as u32);
            let d = match D::new(key, file.data.as_slice()) {
                Ok(d) => d,
                Err(e) => {
                    proof {
                        lemma_block_map_none::<D>(
                            index_map_upto::<D>(*cache, index_id, models, a as int).unwrap(),
                            model.valid_ids,
                            decoded@,
                            model.entry_count,
                            256 * (a as int),
                            k as int + 1,
                            model.entry_count,
                        );
                        lemma_index_map_none::<D>(
                            *cache,
                            index_id,
                            models,
                            a as int + 1,
                            models.len() as int,
                        );
                    }
                    return Err(e);
                },
            };
            definitions.insert(key, d);
            k += 1;
        }
        base_id += 256;
        a += 1;
    }
    Ok(definitions)
}

} // verus!
