use rscache::ArchiveFileGroup;
use rscache::Cache;
use rscache::CompressionUnsupported;
use rscache::IndexMetadata;
use rscache::ParseError;
use rscache::ReadError;
use rscache::RuneFsError;
use rscache::ValidateError;
use rscache::decode;
use rscache::decode_checked;

use std::io::Read;
use std::io::Write;

const SECTOR_SIZE: usize = 520;
const DATA_SIZE: usize = 512;

fn put_archive(main: &mut Vec<u8>, index_id: u8, archive_id: u32, payload: &[u8]) -> (u32, u32) {
    let first_sector = (main.len() / SECTOR_SIZE) as u32;
    let chunks = payload.len().div_ceil(DATA_SIZE).max(1);
    for chunk in 0..chunks {
        let start = chunk * DATA_SIZE;
        let end = (start + DATA_SIZE).min(payload.len());
        let this_sector = (main.len() / SECTOR_SIZE) as u32;
        let next = if chunk + 1 < chunks { this_sector + 1 } else { 0 };
        let mut block = Vec::with_capacity(SECTOR_SIZE);
        block.extend_from_slice(&(archive_id as u16).to_be_bytes());
        block.extend_from_slice(&(chunk as u16).to_be_bytes());
        block.extend_from_slice(&next.to_be_bytes()[1..4]);
        block.push(index_id);
        block.extend_from_slice(&payload[start..end]);
        block.resize(SECTOR_SIZE, 0);
        main.extend_from_slice(&block);
    }
    (payload.len() as u32, first_sector)
}

fn put_record(dir: &mut Vec<u8>, archive_id: u32, length: u32, first_sector: u32) {
    let off = archive_id as usize * 6;
    if dir.len() < off + 6 {
        dir.resize(off + 6, 0);
    }
    dir[off..off + 3].copy_from_slice(&length.to_be_bytes()[1..4]);
    dir[off + 3..off + 6].copy_from_slice(&first_sector.to_be_bytes()[1..4]);
}

fn wrap_none(data: &[u8]) -> Vec<u8> {
    let mut out = vec![0u8];
    out.extend_from_slice(&(data.len() as u32).to_be_bytes());
    out.extend_from_slice(data);
    out
}

/// A cache with one archive (index 3, archive 7) holding `payload`.
fn single_archive_cache(payload: &[u8]) -> Cache {
    let mut main = vec![0u8; SECTOR_SIZE];
    let mut dir = Vec::new();
    let (len, first) = put_archive(&mut main, 3, 7, payload);
    put_record(&mut dir, 7, len, first);
    let mut indexes: Vec<Option<Vec<u8>>> = vec![None; 256];
    indexes[3] = Some(dir);
    Cache::from_buffers(main, indexes)
}

#[test]
fn read_reassembles_multi_sector_archives() {
    let payload: Vec<u8> = (0..2000u32).map(|i| (i % 251) as u8).collect();
    let cache = single_archive_cache(&payload);
    assert_eq!(cache.read(3, 7).unwrap(), payload);
}

#[test]
fn missing_reference_table_is_distinct() {
    let cache = Cache::from_buffers(vec![0u8; SECTOR_SIZE], vec![None; 256]);
    match cache.read(255, 2) {
        Err(RuneFsError::Read(ReadError::ReferenceTableNotFound)) => {}
        other => panic!("unexpected result: {:?}", other.map(|v| v.len())),
    }
    match cache.read(3, 2) {
        Err(RuneFsError::Read(ReadError::IndexNotFound(3))) => {}
        other => panic!("unexpected result: {:?}", other.map(|v| v.len())),
    }
}

#[test]
fn missing_record_is_archive_not_found() {
    let cache = single_archive_cache(&[1, 2, 3]);
    match cache.read(3, 8) {
        Err(RuneFsError::Read(ReadError::ArchiveNotFound(3, 8))) => {}
        other => panic!("unexpected result: {:?}", other.map(|v| v.len())),
    }
}

fn corrupt(cache_payload: &[u8], offset: usize, value: u8) -> Cache {
    let mut main = vec![0u8; SECTOR_SIZE];
    let mut dir = Vec::new();
    let (len, first) = put_archive(&mut main, 3, 7, cache_payload);
    put_record(&mut dir, 7, len, first);
    let base = first as usize * SECTOR_SIZE;
    main[base + offset] = value;
    let mut indexes: Vec<Option<Vec<u8>>> = vec![None; 256];
    indexes[3] = Some(dir);
    Cache::from_buffers(main, indexes)
}

#[test]
fn corrupt_chunk_field_fails_loudly() {
    // The chunk-sequence field lives at bytes 2..4 of the sector header.
    let cache = corrupt(&[9, 9, 9], 3, 5);
    match cache.read(3, 7) {
        Err(RuneFsError::Read(ReadError::SectorChunkMismatch(5, 0))) => {}
        other => panic!("unexpected result: {:?}", other.map(|v| v.len())),
    }
}

#[test]
fn corrupt_archive_field_fails_loudly() {
    // The owning-archive field lives at bytes 0..2 of the sector header.
    let cache = corrupt(&[9, 9, 9], 1, 8);
    match cache.read(3, 7) {
        Err(RuneFsError::Read(ReadError::SectorArchiveMismatch(8, 7))) => {}
        other => panic!("unexpected result: {:?}", other.map(|v| v.len())),
    }
}

#[test]
fn corrupt_index_field_fails_loudly() {
    // The owning-index field lives at byte 7 of the sector header.
    let cache = corrupt(&[9, 9, 9], 7, 4);
    match cache.read(3, 7) {
        Err(RuneFsError::Read(ReadError::SectorIndexMismatch(4, 3))) => {}
        other => panic!("unexpected result: {:?}", other.map(|v| v.len())),
    }
}

#[test]
fn broken_chain_fails_with_next_mismatch() {
    // A chain that terminates while bytes are still owed.
    let payload: Vec<u8> = vec![1; 600];
    let mut main = vec![0u8; SECTOR_SIZE];
    let mut dir = Vec::new();
    let (len, first) = put_archive(&mut main, 3, 7, &payload);
    put_record(&mut dir, 7, len, first);
    let base = first as usize * SECTOR_SIZE;
    main[base + 4] = 0;
    main[base + 5] = 0;
    main[base + 6] = 0;
    let mut indexes: Vec<Option<Vec<u8>>> = vec![None; 256];
    indexes[3] = Some(dir);
    let cache = Cache::from_buffers(main, indexes);
    match cache.read(3, 7) {
        Err(RuneFsError::Read(ReadError::SectorNextMismatch(_, _))) => {}
        other => panic!("unexpected result: {:?}", other.map(|v| v.len())),
    }
}

#[test]
fn unsupported_codec_tag_always_fails() {
    for tag in 3..=255u8 {
        let buffer = [tag, 0, 0, 0, 0, 1, 2, 3];
        match decode(&buffer) {
            Err(RuneFsError::Compression(CompressionUnsupported)) => {}
            other => panic!("unexpected result: {:?}", other),
        }
    }
}

#[test]
fn uncompressed_codec_round_trip() {
    let data = b"hello cache";
    assert_eq!(decode(&wrap_none(data)).unwrap(), data);
}

#[test]
fn truncated_codec_buffer_is_parse_error() {
    match decode(&[]) {
        Err(RuneFsError::Parse(ParseError::Unknown)) => {}
        other => panic!("unexpected result: {:?}", other),
    }
    match decode(&[0, 0, 0, 0, 9, 1]) {
        Err(RuneFsError::Parse(ParseError::Unknown)) => {}
        other => panic!("unexpected result: {:?}", other),
    }
}

fn gzip_compress(data: &[u8]) -> Vec<u8> {
    let mut enc = flate2::write::GzEncoder::new(Vec::new(), flate2::Compression::default());
    enc.write_all(data).unwrap();
    enc.finish().unwrap()
}

fn bzip2_compress(data: &[u8]) -> Vec<u8> {
    let mut enc = bzip2::read::BzEncoder::new(data, bzip2::Compression::new(1));
    let mut out = Vec::new();
    enc.read_to_end(&mut out).unwrap();
    out
}

fn wrap_gzip(data: &[u8]) -> Vec<u8> {
    let body = gzip_compress(data);
    let mut out = vec![2u8];
    out.extend_from_slice(&(body.len() as u32).to_be_bytes());
    out.extend_from_slice(&(data.len() as u32).to_be_bytes());
    out.extend_from_slice(&body);
    out
}

fn wrap_bzip2(data: &[u8]) -> Vec<u8> {
    // Stored bzip2 payloads omit the 4-byte stream magic.
    let body = &bzip2_compress(data)[4..];
    let mut out = vec![1u8];
    out.extend_from_slice(&(body.len() as u32).to_be_bytes());
    out.extend_from_slice(&(data.len() as u32).to_be_bytes());
    out.extend_from_slice(body);
    out
}

#[test]
fn gzip_codec_round_trip() {
    let data: Vec<u8> = (0..1000u32).map(|i| (i % 17) as u8).collect();
    assert_eq!(decode(&wrap_gzip(&data)).unwrap(), data);
}

#[test]
fn bzip2_codec_round_trip() {
    let data: Vec<u8> = (0..1000u32).map(|i| (i % 23) as u8).collect();
    assert_eq!(decode(&wrap_bzip2(&data)).unwrap(), data);
}

#[test]
fn declared_length_mismatch_is_validate_error() {
    let data = b"some definition bytes";
    let mut buffer = wrap_gzip(data);
    // Overstate the declared decompressed length by one.
    buffer[5..9].copy_from_slice(&(data.len() as u32 + 1).to_be_bytes());
    match decode(&buffer) {
        Err(RuneFsError::Validate(ValidateError::InvalidLength(expected, actual))) => {
            assert_eq!(expected, data.len() + 1);
            assert_eq!(actual, data.len());
        }
        other => panic!("unexpected result: {:?}", other),
    }
}

#[test]
fn checksum_match_is_accepted() {
    let data = b"payload under checksum";
    let crc = crc32fast::hash(data);
    assert_eq!(decode_checked(&wrap_none(data), crc, 7).unwrap(), data);
}

#[test]
fn any_single_bit_flip_changes_the_checksum() {
    let data = b"crc sensitive payload";
    let crc = crc32fast::hash(data);
    for byte in 0..data.len() {
        for bit in 0..8 {
            let mut flipped = data.to_vec();
            flipped[byte] ^= 1 << bit;
            match decode_checked(&wrap_none(&flipped), crc, 3) {
                Err(RuneFsError::Validate(ValidateError::InvalidCrc(expected, actual, 3))) => {
                    assert_eq!(expected, crc);
                    assert_eq!(actual, crc32fast::hash(&flipped));
                    assert_ne!(expected, actual);
                }
                other => panic!("unexpected result: {:?}", other),
            }
        }
    }
}

#[test]
fn splitter_emits_files_in_slot_order() {
    let a: &[u8] = &[1, 2, 3];
    let b: &[u8] = &[4, 5];
    let c: &[u8] = &[6, 7, 8, 9];
    let mut buffer = Vec::new();
    buffer.extend_from_slice(a);
    buffer.extend_from_slice(b);
    buffer.extend_from_slice(c);
    // With one chunk per file each delta is that file's whole length.
    buffer.extend_from_slice(&3i32.to_le_bytes());
    buffer.extend_from_slice(&2i32.to_le_bytes());
    buffer.extend_from_slice(&4i32.to_le_bytes());
    buffer.push(1);
    let group = ArchiveFileGroup::from_buffer(&buffer, 3, 7).unwrap();
    assert_eq!(group.len(), 3);
    assert_eq!(group.get(0).id, 0);
    assert_eq!(group.get(0).data, a);
    assert_eq!(group.get(1).data, b);
    assert_eq!(group.get(2).data, c);
}

#[test]
fn splitter_reassembles_two_chunk_files() {
    // Two files, two chunks each, laid out chunk-major.
    let spans: [&[u8]; 4] = [&[1, 1], &[2], &[3, 3, 3], &[4, 4]];
    let mut buffer = Vec::new();
    for s in spans {
        buffer.extend_from_slice(s);
    }
    // Chunk 0 lengths: 2, 1; chunk 1 deltas against them: 3 - 2, 2 - 1.
    buffer.extend_from_slice(&2i32.to_le_bytes());
    buffer.extend_from_slice(&1i32.to_le_bytes());
    buffer.extend_from_slice(&1i32.to_le_bytes());
    buffer.extend_from_slice(&1i32.to_le_bytes());
    buffer.push(2);
    let group = ArchiveFileGroup::from_buffer(&buffer, 2, 9).unwrap();
    assert_eq!(group.len(), 2);
    assert_eq!(group.get(0).data, [1, 1, 3, 3, 3]);
    assert_eq!(group.get(1).data, [2, 4, 4]);
    let total: usize = (0..group.len()).map(|i| group.get(i).data.len()).sum();
    assert_eq!(total + 4 * 2 * 2 + 1, buffer.len());
}

#[test]
fn splitter_conserves_every_byte() {
    let files: [&[u8]; 3] = [&[1; 5], &[2; 9], &[]];
    let mut buffer = Vec::new();
    for f in files {
        buffer.extend_from_slice(f);
    }
    for f in files {
        buffer.extend_from_slice(&(f.len() as i32).to_le_bytes());
    }
    buffer.push(1);
    let group = ArchiveFileGroup::from_buffer(&buffer, 3, 1).unwrap();
    let total: usize = (0..group.len()).map(|i| group.get(i).data.len()).sum();
    assert_eq!(total + 4 * 3 + 1, buffer.len());
}

#[test]
fn oversized_file_count_fails_as_sector_parse_error() {
    let buffer = [1, 2, 3, 4, 0, 0, 0, 3, 1];
    match ArchiveFileGroup::from_buffer(&buffer, 40, 11) {
        Err(RuneFsError::Parse(ParseError::Sector(11))) => {}
        other => panic!("unexpected result: {:?}", other.map(|g| g.len())),
    }
}

#[test]
fn reference_table_with_unknown_protocol_is_rejected() {
    match IndexMetadata::from_buffer(&[9, 0, 0, 0]) {
        Err(RuneFsError::Parse(ParseError::Unknown)) => {}
        other => panic!("unexpected result: {:?}", other.map(|m| m.len())),
    }
}

#[test]
fn truncated_descriptor_is_blamed_on_its_archive() {
    // Protocol 5, no names, one archive with id 4; the checksum column is cut.
    let buffer = [5u8, 0, 0, 1, 0, 4, 0xAA];
    match IndexMetadata::from_buffer(&buffer) {
        Err(RuneFsError::Parse(ParseError::Archive(4))) => {}
        other => panic!("unexpected result: {:?}", other.map(|m| m.len())),
    }
}

#[test]
fn reference_table_descriptors_stream_in_ascending_id_order() {
    // Protocol 5, two archives with ids 4 and 9, one file each (ids 2 and 5).
    let buffer: Vec<u8> = vec![
        5, 0, 0, 2, // protocol, flags, count
        0, 4, 0, 5, // id deltas: 4, then +5
        0, 0, 0, 10, 0, 0, 0, 20, // checksums
        0, 0, 0, 1, 0, 0, 0, 2, // revisions
        0, 1, 0, 1, // packed-file counts
        0, 2, 0, 5, // file-id deltas
    ];
    let metadata = IndexMetadata::from_buffer(&buffer).unwrap();
    assert_eq!(metadata.len(), 2);
    assert_eq!(metadata.get(0).id, 4);
    assert_eq!(metadata.get(0).crc, 10);
    assert_eq!(metadata.get(0).revision, 1);
    assert_eq!(metadata.get(0).valid_ids, [2]);
    assert_eq!(metadata.get(1).id, 9);
    assert_eq!(metadata.get(1).crc, 20);
    assert_eq!(metadata.get(1).valid_ids, [5]);
}

#[test]
fn error_messages_name_the_mismatched_values() {
    assert_eq!(ReadError::IndexNotFound(9).message(), "Index 9 not found.");
    assert_eq!(
        ReadError::SectorChunkMismatch(5, 0).message(),
        "Sector chunk was 5 but expected 0."
    );
    assert_eq!(
        ReadError::ReferenceTableNotFound.message(),
        "Reference table (index 255) not found."
    );
    assert_eq!(CompressionUnsupported.message(), "unsupported compression type");
    assert_eq!(
        ParseError::Archive(12).message(),
        "Unable to parse archive 12, unexpected eof."
    );
    assert_eq!(
        ValidateError::InvalidCrc(7, 8, 2).message(),
        "Mismatch crc at index 2, expected 7 but was 8."
    );
    assert_eq!(
        RuneFsError::Read(ReadError::IndexNotFound(9)).message(),
        "Index 9 not found."
    );
    assert_eq!(
        ReadError::ArchiveNotFound(2, 19).message(),
        "Index 2 does not contain archive group 19."
    );
    assert_eq!(
        ReadError::NameNotInArchive(-7, "map_square".to_string(), 5).message(),
        "Identifier hash -7 for name map_square not found in index 5."
    );
    assert_eq!(
        ReadError::SectorNextMismatch(3, 0).message(),
        "Sector next was 3 but expected 0."
    );
    assert_eq!(
        ReadError::SectorArchiveMismatch(8, 7).message(),
        "Sector archive id was 8 but expected 7."
    );
    assert_eq!(
        ReadError::SectorIndexMismatch(4, 3).message(),
        "Sector parent index id was 4 but expected 3."
    );
    assert_eq!(ParseError::Unknown.message(), "Unknown parser error.");
    assert_eq!(
        ParseError::Sector(9).message(),
        "Unable to parse child sector of parent 9, unexpected eof."
    );
    assert_eq!(
        ValidateError::InvalidLength(10, 9).message(),
        "Expected length of 10 but was 9."
    );
}

#[test]
fn expanded_sector_headers_serve_large_archive_ids() {
    // Archive ids above 16 bits use a 10-byte header with a 32-bit id field
    // and 510 payload bytes per sector.
    let archive_id: u32 = 0x12345;
    let payload: Vec<u8> = (0..700u32).map(|i| (i % 13) as u8).collect();
    let mut main = vec![0u8; SECTOR_SIZE];
    let chunks = payload.len().div_ceil(510);
    let first = (main.len() / SECTOR_SIZE) as u32;
    for chunk in 0..chunks {
        let start = chunk * 510;
        let end = (start + 510).min(payload.len());
        let this_sector = (main.len() / SECTOR_SIZE) as u32;
        let next = if chunk + 1 < chunks { this_sector + 1 } else { 0 };
        let mut block = Vec::with_capacity(SECTOR_SIZE);
        block.extend_from_slice(&archive_id.to_be_bytes());
        block.extend_from_slice(&(chunk as u16).to_be_bytes());
        block.extend_from_slice(&next.to_be_bytes()[1..4]);
        block.push(6);
        block.extend_from_slice(&payload[start..end]);
        block.resize(SECTOR_SIZE, 0);
        main.extend_from_slice(&block);
    }
    let mut dir = Vec::new();
    put_record(&mut dir, archive_id, payload.len() as u32, first);
    let mut indexes: Vec<Option<Vec<u8>>> = vec![None; 256];
    indexes[6] = Some(dir);
    let cache = Cache::from_buffers(main, indexes);
    assert_eq!(cache.read(6, archive_id).unwrap(), payload);
}

#[test]
fn named_reference_table_carries_name_hashes() {
    // Protocol 6 adds a table revision; flags bit 0 adds a hash per archive.
    let buffer: Vec<u8> = vec![
        6, 0, 0, 0, 9, // protocol, table revision
        1, 0, 1, // flags (named), count
        0, 4, // id delta
        0xDE, 0xAD, 0xBE, 0xEF, // name hash
        0, 0, 0, 10, // checksum
        0, 0, 0, 2, // revision
        0, 1, // packed-file count
        0, 7, // file-id delta
    ];
    let metadata = IndexMetadata::from_buffer(&buffer).unwrap();
    assert_eq!(metadata.len(), 1);
    assert_eq!(metadata.get(0).id, 4);
    assert_eq!(metadata.get(0).name_hash, Some(0xDEADBEEF));
    assert_eq!(metadata.get(0).crc, 10);
    assert_eq!(metadata.get(0).valid_ids, [7]);
}

#[test]
fn corruption_deep_in_the_chain_is_still_detected() {
    // Two-sector archive; the second sector's chunk field is wrong.
    let payload: Vec<u8> = vec![7; 800];
    let mut main = vec![0u8; SECTOR_SIZE];
    let mut dir = Vec::new();
    let (len, first) = put_archive(&mut main, 3, 7, &payload);
    put_record(&mut dir, 7, len, first);
    let second_base = (first as usize + 1) * SECTOR_SIZE;
    main[second_base + 3] = 9;
    let mut indexes: Vec<Option<Vec<u8>>> = vec![None; 256];
    indexes[3] = Some(dir);
    let cache = Cache::from_buffers(main, indexes);
    match cache.read(3, 7) {
        Err(RuneFsError::Read(ReadError::SectorChunkMismatch(9, 1))) => {}
        other => panic!("unexpected result: {:?}", other.map(|v| v.len())),
    }
}
