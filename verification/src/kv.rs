use vstd::prelude::*;

verus! {

#[verifier::external_type_specification]
#[verifier::external_body]
pub struct ExDb(sled::Db);

/// Relies on sled::open: a handle to the durable ordered tree persisted under
/// `path`, or nothing when the engine cannot open it. What the tree holds
/// depends on what is on disk, so nothing is stated of it.
#[verifier::external_body]
pub(crate) fn kv_open(path: &str) -> (r: Option<sled::Db>) {
    sled::open(path).ok()
}

/// Relies on sled::Tree::insert: stores the value under the key's bytes,
/// overwriting any prior value. Returns whether the engine accepted the write;
/// the durable outcome is the engine's alone, so nothing more is stated.
#[verifier::external_body]
pub(crate) fn kv_put(db: &sled::Db, key: &str, value: &[u8]) -> (r: bool) {
    db.insert(key.as_bytes(), value).is_ok()
}

/// Relies on sled::Tree::get: the value stored under the key's bytes, nothing
/// when the key is absent, or a storage error. The result depends on what is
/// on disk, so nothing is stated of the bytes.
#[verifier::external_body]
pub(crate) fn kv_get(db: &sled::Db, key: &str) -> (r: Result<Option<Vec<u8>>, ()>) {
    match db.get(key.as_bytes()) {
        Ok(Some(v)) => Ok(Some(v.to_vec())),
        Ok(None) => Ok(None),
        Err(_) => Err(()),
    }
}

/// Relies on sled::Tree::remove: removes the entry under the key's bytes.
/// Returns whether the engine accepted the removal.
#[verifier::external_body]
pub(crate) fn kv_remove(db: &sled::Db, key: &str) -> (r: bool) {
    db.remove(key.as_bytes()).is_ok()
}

/// Relies on sled::Tree::clear: removes every entry of the tree. Returns
/// whether the engine accepted it.
#[verifier::external_body]
pub(crate) fn kv_clear(db: &sled::Db) -> (r: bool) {
    db.clear().is_ok()
}

/// Relies on sled::Tree::iter: walks every entry of the tree in key order and
/// hands back the raw key bytes. The result depends on what is on disk, so
/// nothing is stated.
#[verifier::external_body]
pub(crate) fn kv_raw_keys(db: &sled::Db) -> (r: Vec<Vec<u8>>) {
    db.iter().filter_map(|e| e.ok()).map(|(k, _)| k.to_vec()).collect()
}

} // verus!
