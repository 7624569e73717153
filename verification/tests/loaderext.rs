use rscache::Cache;
use rscache::InventoryDefinition;
use rscache::InventoryLoader;
use rscache::ReadError;
use rscache::RuneFsError;
use rscache::VarbitLoader;
use rscache::fetch_from_archive;
use rscache::fetch_from_index;

const SECTOR_SIZE: usize = 520;
const DATA_SIZE: usize = 512;

/// Appends an archive's payload to the main data store as a chain of
/// sectors and returns the directory record values for it.
fn put_archive(main: &mut Vec<u8>, index_id: u8, archive_id: u32, payload: &[u8]) -> (u32, u32) {
    let first_sector = (main.len() / SECTOR_SIZE) as u32;
    let chunks = payload.len().div_ceil(DATA_SIZE).max(1);
    for chunk in 0..chunks {
        let start = chunk * DATA_SIZE;
        let end = (start + DATA_SIZE).min(payload.len());
        let this_sector = (main.len() / SECTOR_SIZE) as u32;
        let next = if chunk + 1 < chunks { this_sector + 1 } else { 0 };
        let mut block = Vec::with_capacity(SECTOR_SIZE);
        block.extend_from_slice(&(archive_id as u16).to_be_bytes());
        block.extend_from_slice(&(chunk as u16).to_be_bytes());
        block.extend_from_slice(&next.to_be_bytes()[1..4]);
        block.push(index_id);
        block.extend_from_slice(&payload[start..end]);
        block.resize(SECTOR_SIZE, 0);
        main.extend_from_slice(&block);
    }
    (payload.len() as u32, first_sector)
}

/// Writes a 6-byte directory record for `archive_id` into an index file.
fn put_record(dir: &mut Vec<u8>, archive_id: u32, length: u32, first_sector: u32) {
    let off = archive_id as usize * 6;
    if dir.len() < off + 6 {
        dir.resize(off + 6, 0);
    }
    dir[off..off + 3].copy_from_slice(&length.to_be_bytes()[1..4]);
    dir[off + 3..off + 6].copy_from_slice(&first_sector.to_be_bytes()[1..4]);
}

/// Wraps raw bytes in an uncompressed codec buffer.
fn wrap_none(data: &[u8]) -> Vec<u8> {
    let mut out = vec![0u8];
    out.extend_from_slice(&(data.len() as u32).to_be_bytes());
    out.extend_from_slice(data);
    out
}

/// Appends the one-chunk trailing length table for the given file buffers
/// and returns the whole decoded-archive buffer.
fn pack_group(files: &[&[u8]]) -> Vec<u8> {
    let mut out = Vec::new();
    for f in files {
        out.extend_from_slice(f);
    }
    for f in files {
        out.extend_from_slice(&(f.len() as i32).to_le_bytes());
    }
    out.push(1);
    out
}

/// Builds the protocol-5 reference table of one index: archive ids with
/// their checksums, revisions, packed-file counts and file-id tables.
fn pack_reference_table(archives: &[(u32, u32, &[u16])]) -> Vec<u8> {
    let mut out = vec![5u8, 0u8];
    out.extend_from_slice(&(archives.len() as u16).to_be_bytes());
    let mut prev_id: u32 = 0;
    for (i, (id, _, _)) in archives.iter().enumerate() {
        let delta = if i == 0 { *id } else { *id - prev_id };
        out.extend_from_slice(&(delta as u16).to_be_bytes());
        prev_id = *id;
    }
    for (_, crc, _) in archives {
        out.extend_from_slice(&crc.to_be_bytes());
    }
    for _ in archives {
        out.extend_from_slice(&0u32.to_be_bytes());
    }
    for (_, _, file_ids) in archives {
        out.extend_from_slice(&(file_ids.len() as u16).to_be_bytes());
    }
    for (_, _, file_ids) in archives {
        let mut prev: u16 = 0;
        for (i, id) in file_ids.iter().enumerate() {
            let delta = if i == 0 { *id } else { id.wrapping_sub(prev) };
            out.extend_from_slice(&delta.to_be_bytes());
            prev = *id;
        }
    }
    out
}

/// A synthetic cache whose configuration index holds one inventory archive
/// (global id 93, capacity 28) and one varbit archive (global id 8119,
/// varp 1737, bits 31..31).
fn osrs_cache() -> Cache {
    let mut main = vec![0u8; SECTOR_SIZE];
    let mut dir2 = Vec::new();
    let mut dir255 = Vec::new();

    let inv_def: &[u8] = &[2, 0, 28, 0];
    let inv_archive = wrap_none(&pack_group(&[inv_def]));
    let (len, first) = put_archive(&mut main, 2, 5, &inv_archive);
    put_record(&mut dir2, 5, len, first);

    let varbit_def: &[u8] = &[1, 0x06, 0xC9, 31, 31, 0];
    let varbit_archive = wrap_none(&pack_group(&[varbit_def]));
    let (len, first) = put_archive(&mut main, 2, 14, &varbit_archive);
    put_record(&mut dir2, 14, len, first);

    let table = pack_reference_table(&[(5, 0, &[93]), (14, 0, &[8119])]);
    let table_archive = wrap_none(&table);
    let (len, first) = put_archive(&mut main, 255, 2, &table_archive);
    put_record(&mut dir255, 2, len, first);

    let mut indexes: Vec<Option<Vec<u8>>> = vec![None; 256];
    indexes[2] = Some(dir2);
    indexes[255] = Some(dir255);
    Cache::from_buffers(main, indexes)
}

#[test]
fn load_player_backpack() {
    let inventory_loader = InventoryLoader::new(&osrs_cache()).unwrap();

    let inventory = inventory_loader.load(93).unwrap();

    assert_eq!(28, inventory.capacity.unwrap());
}

#[test]
fn load_sample_varbit() {
    let varbit_loader = VarbitLoader::new(&osrs_cache()).unwrap();

    let chatbox_varbit = varbit_loader.load(8119).unwrap();

    assert_eq!(1737, chatbox_varbit.varp_id);
    assert_eq!(31, chatbox_varbit.least_significant_bit);
    assert_eq!(31, chatbox_varbit.most_significant_bit);
}

#[test]
fn absent_ids_load_nothing() {
    let loader = InventoryLoader::new(&osrs_cache()).unwrap();
    assert!(loader.load(92).is_none());
    assert!(loader.load(0).is_none());
}

#[test]
fn fetch_from_index_keys_archives_in_id_blocks() {
    // Index 4 holds two single-file inventory archives; the second archive
    // occupies the id block starting at 256.
    let mut main = vec![0u8; SECTOR_SIZE];
    let mut dir4 = Vec::new();
    let mut dir255 = Vec::new();

    let first_def: &[u8] = &[2, 0, 7, 0];
    let archive0 = wrap_none(&pack_group(&[first_def]));
    let (len, first) = put_archive(&mut main, 4, 0, &archive0);
    put_record(&mut dir4, 0, len, first);

    let second_def: &[u8] = &[2, 0, 9, 0];
    let archive1 = wrap_none(&pack_group(&[second_def]));
    let (len, first) = put_archive(&mut main, 4, 1, &archive1);
    put_record(&mut dir4, 1, len, first);

    let table = pack_reference_table(&[(0, 0, &[3]), (1, 0, &[5])]);
    let table_archive = wrap_none(&table);
    let (len, first) = put_archive(&mut main, 255, 4, &table_archive);
    put_record(&mut dir255, 4, len, first);

    let mut indexes: Vec<Option<Vec<u8>>> = vec![None; 256];
    indexes[4] = Some(dir4);
    indexes[255] = Some(dir255);
    let cache = Cache::from_buffers(main, indexes);

    let defs = fetch_from_index::<InventoryDefinition>(&cache, 4).unwrap();
    assert_eq!(defs.len(), 2);
    assert_eq!(defs.get(&3).unwrap().capacity, Some(7));
    assert_eq!(defs.get(&(256 + 5)).unwrap().capacity, Some(9));
}

#[test]
fn loader_surfaces_missing_reference_table() {
    let cache = Cache::from_buffers(vec![0u8; SECTOR_SIZE], vec![None; 256]);
    match InventoryLoader::new(&cache) {
        Err(RuneFsError::Read(ReadError::ReferenceTableNotFound)) => {}
        other => panic!("unexpected result: {:?}", other.is_ok()),
    }
}

#[test]
fn fetch_fails_for_archives_the_table_lacks() {
    match fetch_from_archive::<InventoryDefinition>(&osrs_cache(), 2, 6) {
        Err(RuneFsError::Read(ReadError::ArchiveNotFound(2, 6))) => {}
        other => panic!("unexpected result: {:?}", other.is_ok()),
    }
}
