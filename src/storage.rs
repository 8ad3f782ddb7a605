//! Settings of the persistent state store, and the item it stores.
use vstd::prelude::*;

verus! {

/// One value to persist under a signal path.
#[derive(Debug)]
pub struct StoreItem {
    pub path: String,
    pub value: String,
}

/// Which store to use.
#[derive(Debug, PartialEq)]
pub struct StorageConfig {
    pub storagetype: StorageType,
}

/// The kinds of store.
#[derive(Debug, PartialEq)]
#[non_exhaustive]
pub enum StorageType {
    FileStorageType(FileStorageType),
}

/// A store kept in one JSON file.
#[derive(Debug, PartialEq)]
pub struct FileStorageType {
    pub filepath: String,
}

/// The file a file store uses when none is configured.
pub open spec fn default_storage_path() -> Seq<char> {
    "storage.json"@
}

impl Default for FileStorageType {
    fn default() -> (r: Self)
        ensures
            r.filepath@ == default_storage_path(),
    {
        FileStorageType { filepath: "storage.json".to_owned() }
    }
}

impl Default for StorageType {
    fn default() -> (r: Self)
        ensures
            r matches StorageType::FileStorageType(f) && f.filepath@ == default_storage_path(),
    {
        StorageType::FileStorageType(FileStorageType::default())
    }
}

impl Default for StorageConfig {
    fn default() -> (r: Self)
        ensures
            r.storagetype matches StorageType::FileStorageType(f) && f.filepath@ == default_storage_path(),
    {
        StorageConfig { storagetype: StorageType::default() }
    }
}

} // verus!
