//! A verified storage engine for the flat-file archival cache format used by
//! a client/server game: per-index directories of fixed-size records, archives
//! stored as chains of fixed-size sectors in one shared data store, a
//! compression codec dispatched by a header tag, reference-table metadata
//! parsing, and the splitting of multi-file archive payloads into their
//! packed files. Every structural check carries an exact, machine-checked
//! contract, and corruption is always reported through the closed error
//! taxonomy rather than silently truncated.

use vstd::prelude::*;

mod bytes;
mod cache;
mod codec;
mod definition;
mod error;
mod group;
mod laws;
mod meta;
mod osrs;

pub use cache::Cache;
pub use codec::decode;
pub use codec::decode_checked;
pub use definition::Definition;
pub use definition::fetch_from_archive;
pub use definition::fetch_from_index;
pub use error::CompressionUnsupported;
pub use error::ParseError;
pub use error::ReadError;
pub use error::RuneFsError;
pub use error::ValidateError;
pub use group::ArchiveFile;
pub use group::ArchiveFileGroup;
pub use laws::lemma_missing_index;
pub use laws::lemma_missing_reference_table;
pub use laws::lemma_read_decode_round_trip;
pub use laws::lemma_sector_archive_mismatch;
pub use laws::lemma_sector_chunk_mismatch;
pub use laws::lemma_sector_index_mismatch;
pub use laws::lemma_split_conservation;
pub use laws::lemma_walk_archive_mismatch;
pub use laws::lemma_walk_chunk_mismatch;
pub use laws::lemma_walk_index_mismatch;
pub use meta::ArchiveData;
pub use meta::IndexMetadata;
pub use osrs::InventoryDefinition;
pub use osrs::InventoryLoader;
pub use osrs::VarbitDefinition;
pub use osrs::VarbitLoader;

verus! {

/// Identifier of the reserved index that stores the reference table
/// describing every other index.
pub const REFERENCE_TABLE_ID: u8 = 255;

/// A specialized result type for cache operations.
pub type Result<T> = std::result::Result<T, RuneFsError>;

} // verus!
