use vstd::prelude::*;
use crate::cache::cache_cap;
use crate::cache::cache_clear;
use crate::cache::cache_get;
use crate::cache::cache_keys;
use crate::cache::cache_map;
use crate::cache::cache_new;
use crate::cache::cache_pop;
use crate::cache::cache_put;
use crate::cache::empty_cache_model;
use crate::cipher::encrypt_value;
use crate::cipher::max_seal_len;
use crate::codec::encode_key;
use crate::codec::encode_table_prefix;
use crate::codec::has_prefix;
use crate::codec::row_key;
use crate::codec::starts_with_prefix;
use crate::codec::table_prefix;
use crate::codec::table_sentinel;
use crate::config::VibraConfig;
use crate::kv::kv_clear;
use crate::kv::kv_get;
use crate::kv::kv_raw_keys;
use crate::kv::kv_open;
use crate::kv::kv_put;
use crate::kv::kv_remove;
use crate::models::cols_view;
use crate::models::Row;
use crate::models::VibraError;
use crate::record::build_stored_record;
use crate::record::decode_stored_record;
use crate::record::record_represents;
use crate::serial::cols_of;
use crate::serial::deserialize_columns;
use crate::serial::json_of;
use crate::serial::serialize_columns;
use crate::serial::text_from_bytes;
use vstd::slice::slice_index_get;

verus! {

/// The encrypted, cached row store: a handle to the durable ordered
/// collaborator, a bounded least-recently-used cache of plaintext payloads,
/// the number of encryption layers applied to every stored value, and the
/// storage location.
pub struct VibraDB {
    db: sled::Db,
    cache: lru::LruCache<String, Vec<u8>>,
    layers: usize,
    path: String,
}

impl VibraDB {
    /// The cache's contents: each resident composite key mapped to the
    /// plaintext payload cached under it.
    pub closed spec fn cache_model(&self) -> Map<Seq<char>, Seq<u8>> {
        cache_map(self.cache)
    }

    /// The fixed capacity the cache was created with.
    pub closed spec fn cache_capacity(&self) -> nat {
        cache_cap(self.cache)
    }

    /// How many encryption layers every stored value passes through.
    pub closed spec fn layer_count(&self) -> usize {
        self.layers
    }

    /// The storage location handed to the collaborator at construction.
    pub closed spec fn path_model(&self) -> Seq<char> {
        self.path@
    }

    /// Well-formed: at least one encryption layer, and the cache holds only
    /// payloads that decode to a column list — the store caches nothing it did
    /// not write or verify itself.
    pub open spec fn wf(&self) -> bool {
        &&& 1 <= self.layer_count()
        &&& self.cache_model().dom().finite()
        &&& self.cache_model().dom().len() <= self.cache_capacity()
        &&& forall|k: Seq<char>|
            self.cache_model().contains_key(k) ==> (#[trigger] cols_of(
                self.cache_model()[k],
            )) is Some
    }

    /// What no operation ever changes: the layer count, the storage location
    /// and the cache capacity.
    pub open spec fn same_store(&self, other: &VibraDB) -> bool {
        &&& self.layer_count() == other.layer_count()
        &&& self.path_model() == other.path_model()
        &&& self.cache_capacity() == other.cache_capacity()
    }

    /// Opens the collaborator at the configured path and builds an empty cache
    /// of the configured capacity. Malformed configuration — an absent field,
    /// a zero cache size or a zero layer count — is excluded at this startup
    /// boundary; the one runtime failure is the engine refusing to open,
    /// surfaced as `StorageIOFailure`.
    pub fn new(config: VibraConfig) -> (r: Result<VibraDB, VibraError>)
        requires
            config.path is Some,
            config.cache_size matches Some(c) && 1 <= c,
            config.encryption_layers matches Some(l) && 1 <= l,
        ensures
            r matches Ok(d) ==> {
                &&& d.wf()
                &&& d.cache_model() == empty_cache_model()
                &&& d.cache_capacity() == config.cache_size.unwrap()
                &&& d.layer_count() == config.encryption_layers.unwrap()
                &&& d.path_model() == config.path.unwrap()@
            },
            r matches Err(e) ==> e == VibraError::StorageIOFailure,
    {
        let path = config.path.unwrap();
        let cap = config.cache_size.unwrap();
        let layers = config.encryption_layers.unwrap();
        match kv_open(path.as_str()) {
            Some(db) => {
                let cache = cache_new(cap);
                proof {
                    assert(empty_cache_model().dom() =~= Set::<Seq<char>>::empty());
                }
                Ok(VibraDB { db, cache, layers, path })
            },
            None => Err(VibraError::StorageIOFailure),
        }
    }

    /// Writes the table's existence sentinel — the table name itself, with an
    /// empty payload — to the collaborator. Idempotent: re-creation only
    /// overwrites the sentinel and is no error. Whether the write lands is the
    /// collaborator's outcome alone.
    pub fn create_table(&self, table_name: &str) -> (r: Result<(), VibraError>)
        ensures
            r matches Err(e) ==> e == VibraError::StorageIOFailure,
    {
        let empty_payload: Vec<u8> = Vec::new();
        if kv_put(&self.db, table_sentinel(table_name), empty_payload.as_slice()) {
            Ok(())
        } else {
            Err(VibraError::StorageIOFailure)
        }
    }

    /// Removes the table's existence sentinel from the collaborator. Does not
    /// touch cached or stored rows under the table: orphaned rows stay
    /// readable until the caller also truncates them.
    pub fn delete_table(&self, table_name: &str) -> (r: Result<(), VibraError>)
        ensures
            r matches Err(e) ==> e == VibraError::StorageIOFailure,
    {
        if kv_remove(&self.db, table_sentinel(table_name)) {
            Ok(())
        } else {
            Err(VibraError::StorageIOFailure)
        }
    }

    /// Whether the table's sentinel entry is present; the collaborator alone
    /// decides.
    pub fn table_exists(&self, table_name: &str) -> (r: Result<bool, VibraError>)
        ensures
            r matches Err(e) ==> e == VibraError::StorageIOFailure,
    {
        match kv_get(&self.db, table_sentinel(table_name)) {
            Ok(found) => Ok(found.is_some()),
            Err(()) => Err(VibraError::StorageIOFailure),
        }
    }

    /// Serializes the row's columns to their canonical text encoding, seals
    /// the payload under `layer_count()` fresh layers, and stores
    /// `ciphertext || keys || nonces` under the composite key, overwriting any
    /// prior record. The plaintext payload is written through the cache before
    /// the durable write, so the cache entry stands even when the durable
    /// write then fails; an encryption failure — possible only when the
    /// payload outgrows the cipher's length cap — leaves both untouched. While
    /// the cache has room for the key, nothing is evicted; only capacity
    /// pressure may push out the least-recently-used other entry.
    pub fn insert_row(&mut self, table_name: &str, row: Row) -> (r: Result<(), VibraError>)
        requires
            old(self).wf(),
        ensures
            final(self).wf(),
            old(self).same_store(final(self)),
            r matches Err(e) ==> (e == VibraError::StorageIOFailure || e
                == VibraError::EncryptionFailure),
            r == Err::<(), VibraError>(VibraError::EncryptionFailure) ==> final(self).cache_model()
                == old(self).cache_model() && json_of(cols_view(row.columns@)).len() + 16 * (
            old(self).layer_count() as int) > max_seal_len(),
            r != Err::<(), VibraError>(VibraError::EncryptionFailure) && (old(self).cache_model().dom().len()
                < old(self).cache_capacity() || old(self).cache_model().contains_key(
                row_key(table_name@, row.id@),
            )) ==> final(self).cache_model() == old(self).cache_model().insert(
                row_key(table_name@, row.id@),
                json_of(cols_view(row.columns@)),
            ),
            r != Err::<(), VibraError>(VibraError::EncryptionFailure) ==> {
                let key = row_key(table_name@, row.id@);
                let payload = json_of(cols_view(row.columns@));
                &&& final(self).cache_model().contains_pair(key, payload)
                &&& cols_of(payload) == Some(cols_view(row.columns@))
                &&& forall|k2: Seq<char>|
                    k2 != key && #[trigger] final(self).cache_model().contains_key(k2) ==> old(self).cache_model().contains_pair(k2, final(self).cache_model()[k2])
            },
    {
        let key = encode_key(table_name, row.id.as_str());
        let data = serialize_columns(&row.columns).unwrap();
        let sealed = match encrypt_value(data.as_slice(), self.layers) {
            Ok(t) => t,
            Err(e) => {
                return Err(e);
            },
        };
        let (ct, layer_keys, layer_nonces) = sealed;
        let record = build_stored_record(ct, layer_keys.as_slice(), layer_nonces.as_slice());
        let db_key = key.clone();
        cache_put(&mut self.cache, key, data);
        if kv_put(&self.db, db_key.as_str(), record.as_slice()) {
            Ok(())
        } else {
            Err(VibraError::StorageIOFailure)
        }
    }

    /// Looks the row up under its composite key. On a cache hit the cached
    /// plaintext is decoded and returned without consulting the collaborator.
    /// On a miss the stored record is fetched; an absent key, a record failing
    /// a layer's tag check and a record whose plaintext decodes to no column
    /// list all degrade to no row; a record that decodes warms the cache with
    /// its plaintext. Only a failed collaborator read is an error.
    pub fn get_row(&mut self, table_name: &str, row_id: &str) -> (r: Result<
        Option<Row>,
        VibraError,
    >)
        requires
            old(self).wf(),
        ensures
            final(self).wf(),
            old(self).same_store(final(self)),
            r matches Err(e) ==> e == VibraError::StorageIOFailure,
            ({
                let key = row_key(table_name@, row_id@);
                let c0 = old(self).cache_model();
                &&& c0.contains_key(key) ==> {
                    &&& final(self).cache_model() == c0
                    &&& match r {
                        Ok(Some(row)) => row.id@ == row_id@ && cols_of(c0[key]) == Some(
                            cols_view(row.columns@),
                        ),
                        _ => false,
                    }
                }
                &&& !c0.contains_key(key) ==> match r {
                    Ok(Some(row)) => {
                        &&& row.id@ == row_id@
                        &&& exists|rec: Seq<u8>|
                            #[trigger] record_represents(
                                rec,
                                old(self).layer_count() as nat,
                                cols_view(row.columns@),
                            )
                        &&& final(self).cache_model().contains_key(key)
                        &&& cols_of(final(self).cache_model()[key]) == Some(
                            cols_view(row.columns@),
                        )
                        &&& forall|k2: Seq<char>|
                            k2 != key && #[trigger] final(self).cache_model().contains_key(k2)
                                ==> c0.contains_pair(k2, final(self).cache_model()[k2])
                    },
                    _ => final(self).cache_model() == c0,
                }
            }),
    {
        let key = encode_key(table_name, row_id);
        match cache_get(&mut self.cache, &key) {
            Some(value) => {
                // Well-formedness: cached payloads always decode.
                let columns = deserialize_columns(value.as_slice()).unwrap();
                Ok(Some(Row { id: row_id.to_owned(), columns }))
            },
            None => {
                match kv_get(&self.db, key.as_str()) {
                    Err(()) => Err(VibraError::StorageIOFailure),
                    Ok(None) => Ok(None),
                    Ok(Some(record)) => {
                        match decode_stored_record(record.as_slice(), self.layers) {
                            Ok(decoded) => {
                                let (plain, columns) = decoded;
                                cache_put(&mut self.cache, key, plain);
                                Ok(Some(Row { id: row_id.to_owned(), columns }))
                            },
                            Err(_) => Ok(None),
                        }
                    },
                }
            },
        }
    }

    /// Removes the stored record and then the cache entry as one logical step:
    /// when the durable removal fails, the cache entry stays, so the cache
    /// never claims absence while storage still holds the record.
    pub fn delete_row(&mut self, table_name: &str, row_id: &str) -> (r: Result<(), VibraError>)
        requires
            old(self).wf(),
        ensures
            final(self).wf(),
            old(self).same_store(final(self)),
            r matches Err(e) ==> e == VibraError::StorageIOFailure,
            r is Ok ==> final(self).cache_model() == old(self).cache_model().remove(
                row_key(table_name@, row_id@),
            ),
            r is Err ==> final(self).cache_model() == old(self).cache_model(),
    {
        let key = encode_key(table_name, row_id);
        if kv_remove(&self.db, key.as_str()) {
            cache_pop(&mut self.cache, &key);
            Ok(())
        } else {
            Err(VibraError::StorageIOFailure)
        }
    }

    /// Re-writes the row as a deletion followed by an insertion under the same
    /// id. The two steps are not atomic: a concurrent reader can observe the
    /// row as absent between them.
    pub fn update_row(&mut self, table_name: &str, row: Row) -> (r: Result<(), VibraError>)
        requires
            old(self).wf(),
        ensures
            final(self).wf(),
            old(self).same_store(final(self)),
            r matches Err(e) ==> (e == VibraError::StorageIOFailure || e
                == VibraError::EncryptionFailure),
            r == Err::<(), VibraError>(VibraError::EncryptionFailure) ==> json_of(
                cols_view(row.columns@),
            ).len() + 16 * (old(self).layer_count() as int) > max_seal_len(),
            r is Ok ==> {
                let key = row_key(table_name@, row.id@);
                let payload = json_of(cols_view(row.columns@));
                &&& final(self).cache_model().contains_pair(key, payload)
                &&& cols_of(payload) == Some(cols_view(row.columns@))
            },
            r is Ok && (old(self).cache_model().dom().len() < old(self).cache_capacity() || old(self).cache_model().contains_key(row_key(table_name@, row.id@))) ==> final(self).cache_model() == old(self).cache_model().remove(row_key(table_name@, row.id@)).insert(
                row_key(table_name@, row.id@),
                json_of(cols_view(row.columns@)),
            ),
    {
        let ghost key = row_key(table_name@, row.id@);
        match self.delete_row(table_name, row.id.as_str()) {
            Ok(()) => {},
            Err(e) => {
                return Err(e);
            },
        }
        proof {
            vstd::set::axiom_set_remove_len(old(self).cache_model().dom(), key);
            if !old(self).cache_model().contains_key(key) {
                assert(old(self).cache_model().remove(key).dom() =~= old(self).cache_model().dom());
            }
        }
        self.insert_row(table_name, row)
    }

    /// Applies `insert_row` once per row, in the caller's order. Not atomic as
    /// a batch: a failure partway leaves the earlier rows committed. While the
    /// cache has room for the whole batch nothing is evicted, so every row's
    /// entry is resident afterwards, a later duplicate id overwriting an
    /// earlier one; under capacity pressure only the last row's entry is
    /// promised.
    pub fn insert_rows(&mut self, table_name: &str, rows: Vec<Row>) -> (r: Result<(), VibraError>)
        requires
            old(self).wf(),
        ensures
            final(self).wf(),
            old(self).same_store(final(self)),
            r matches Err(e) ==> (e == VibraError::StorageIOFailure || e
                == VibraError::EncryptionFailure),
            r is Ok && rows@.len() > 0 ==> {
                let last = rows@.last();
                let payload = json_of(cols_view(last.columns@));
                &&& final(self).cache_model().contains_pair(
                    row_key(table_name@, last.id@),
                    payload,
                )
                &&& cols_of(payload) == Some(cols_view(last.columns@))
            },
            rows@.len() == 0 ==> r is Ok && final(self).cache_model() == old(self).cache_model(),
            r == Err::<(), VibraError>(VibraError::EncryptionFailure) ==> exists|i: int|
                0 <= i < rows@.len() && (#[trigger] json_of(cols_view(rows@[i].columns@))).len()
                    + 16 * (old(self).layer_count() as int) > max_seal_len(),
            r is Ok && old(self).cache_model().dom().len() + rows@.len() <= old(self).cache_capacity() ==> final(self).cache_model() == cache_after_inserts(
                old(self).cache_model(),
                table_name@,
                rows@,
            ),
            r is Ok ==> forall|i: int|
                0 <= i < rows@.len() ==> cols_of(
                    #[trigger] json_of(cols_view(rows@[i].columns@)),
                ) == Some(cols_view(rows@[i].columns@)),
    {
        let ghost all = rows@;
        let mut rest = rows;
        proof {
            assert(rest@ =~= all.subrange(0, all.len() as int));
            assert(cache_after_inserts(old(self).cache_model(), table_name@, all.take(0))
                == old(self).cache_model());
        }
        #[verifier::loop_isolation(false)]
        while rest.len() > 0
            invariant
                self.wf(),
                old(self).same_store(self),
                rest@.len() <= all.len(),
                rest@ == all.subrange(all.len() - rest@.len(), all.len() as int),
                rest@.len() < all.len() ==> {
                    let prev = all[all.len() - rest@.len() - 1];
                    let payload = json_of(cols_view(prev.columns@));
                    &&& self.cache_model().contains_pair(row_key(table_name@, prev.id@), payload)
                    &&& cols_of(payload) == Some(cols_view(prev.columns@))
                },
                forall|i: int|
                    0 <= i < all.len() - rest@.len() ==> cols_of(
                        #[trigger] json_of(cols_view(all[i].columns@)),
                    ) == Some(cols_view(all[i].columns@)),
                old(self).cache_model().dom().len() + all.len() <= old(self).cache_capacity()
                    ==> {
                    &&& self.cache_model() == cache_after_inserts(
                        old(self).cache_model(),
                        table_name@,
                        all.take(all.len() - rest@.len()),
                    )
                    &&& self.cache_model().dom().len() <= old(self).cache_model().dom().len() + (
                    all.len() - rest@.len())
                },
            decreases rest@.len(),
        {
            let ghost k = all.len() - rest@.len();
            proof {
                assert(k < all.len());
            }
            let row = rest.remove(0);
            proof {
                assert(row == all[k as int]);
                assert(rest@ =~= all.subrange(k + 1, all.len() as int));
                assert(all.take(k as int + 1).drop_last() =~= all.take(k as int));
                vstd::set::axiom_set_insert_len(
                    self.cache_model().dom(),
                    row_key(table_name@, row.id@),
                );
            }
            match self.insert_row(table_name, row) {
                Ok(()) => {},
                Err(e) => {
                    proof {
                        assert(all.len() > 0);
                        if e == VibraError::EncryptionFailure {
                            assert(json_of(cols_view(all[k as int].columns@)).len() + 16 * (
                            old(self).layer_count() as int) > max_seal_len());
                        }
                    }
                    return Err(e);
                },
            }
        }
        Ok(())
    }

    /// `insert_rows` under the name some callers use, with its contract.
    pub fn insert_many_rows(&mut self, table_name: &str, rows: Vec<Row>) -> (r: Result<
        (),
        VibraError,
    >)
        requires
            old(self).wf(),
        ensures
            final(self).wf(),
            old(self).same_store(final(self)),
            r matches Err(e) ==> (e == VibraError::StorageIOFailure || e
                == VibraError::EncryptionFailure),
            r is Ok && rows@.len() > 0 ==> {
                let last = rows@.last();
                let payload = json_of(cols_view(last.columns@));
                &&& final(self).cache_model().contains_pair(
                    row_key(table_name@, last.id@),
                    payload,
                )
                &&& cols_of(payload) == Some(cols_view(last.columns@))
            },
            rows@.len() == 0 ==> r is Ok && final(self).cache_model() == old(self).cache_model(),
            r == Err::<(), VibraError>(VibraError::EncryptionFailure) ==> exists|i: int|
                0 <= i < rows@.len() && (#[trigger] json_of(cols_view(rows@[i].columns@))).len()
                    + 16 * (old(self).layer_count() as int) > max_seal_len(),
            r is Ok && old(self).cache_model().dom().len() + rows@.len() <= old(self).cache_capacity() ==> final(self).cache_model() == cache_after_inserts(
                old(self).cache_model(),
                table_name@,
                rows@,
            ),
            r is Ok ==> forall|i: int|
                0 <= i < rows@.len() ==> cols_of(
                    #[trigger] json_of(cols_view(rows@[i].columns@)),
                ) == Some(cols_view(rows@[i].columns@)),
    {
        self.insert_rows(table_name, rows)
    }

    /// Scans the cache's keys and the collaborator's keys for the
    /// `table + "/"` prefix and removes every match from both, leaving rows of
    /// other tables and the table's sentinel untouched. A full scan of both
    /// structures, not of this table alone.
    pub fn truncate_table(&mut self, table_name: &str) -> (r: Result<(), VibraError>)
        requires
            old(self).wf(),
        ensures
            final(self).wf(),
            old(self).same_store(final(self)),
            r matches Err(e) ==> e == VibraError::StorageIOFailure,
            forall|k: Seq<char>|
                #[trigger] final(self).cache_model().contains_key(k) <==> (old(self).cache_model().contains_key(k) && !has_prefix(k, table_prefix(table_name@))),
            forall|k: Seq<char>|
                #[trigger] final(self).cache_model().contains_key(k) ==> final(self).cache_model()[k] == old(self).cache_model()[k],
    {
        let prefix = encode_table_prefix(table_name);
        let keys = cache_keys(&self.cache);
        let n = keys.len();
        let mut i: usize = 0;
        while i < n
            invariant
                i <= n,
                n == keys@.len(),
                prefix@ == table_prefix(table_name@),
                self.wf(),
                old(self).same_store(self),
                forall|k: Seq<char>|
                    #[trigger] self.cache_model().contains_key(k) ==> old(self).cache_model().contains_pair(k, self.cache_model()[k]),
                forall|k: Seq<char>|
                    old(self).cache_model().contains_key(k) && !has_prefix(
                        k,
                        table_prefix(table_name@),
                    ) ==> #[trigger] self.cache_model().contains_key(k),
                forall|j: int|
                    0 <= j < i && has_prefix(#[trigger] keys@[j]@, table_prefix(table_name@))
                        ==> !self.cache_model().contains_key(keys@[j]@),
                forall|i2: int|
                    0 <= i2 < keys@.len() ==> old(self).cache_model().contains_key(
                        #[trigger] keys@[i2]@,
                    ),
                forall|k: Seq<char>|
                    #[trigger] old(self).cache_model().contains_key(k) ==> exists|i2: int|
                        0 <= i2 < keys@.len() && keys@[i2]@ == k,
            decreases n - i,
        {
            let ki = slice_index_get(keys.as_slice(), i);
            if starts_with_prefix(ki.as_str(), prefix.as_str()) {
                cache_pop(&mut self.cache, ki);
            }
            i += 1;
        }
        proof {
            assert forall|k: Seq<char>|
                old(self).cache_model().contains_key(k) && has_prefix(
                    k,
                    table_prefix(table_name@),
                ) implies !self.cache_model().contains_key(k) by {
                let i2 = choose|i2: int| 0 <= i2 < keys@.len() && keys@[i2]@ == k;
                assert(has_prefix(keys@[i2]@, table_prefix(table_name@)));
            }
        }
        let raw_keys = kv_raw_keys(&self.db);
        let m = raw_keys.len();
        let mut j: usize = 0;
        let mut all_removed = true;
        while j < m
            invariant
                j <= m,
                m == raw_keys@.len(),
                prefix@ == table_prefix(table_name@),
            decreases m - j,
        {
            let kj_bytes = slice_index_get(raw_keys.as_slice(), j);
            // This layer writes only text keys; no other can be a row key.
            match text_from_bytes(kj_bytes.as_slice()) {
                Some(kj) => {
                    if starts_with_prefix(kj.as_str(), prefix.as_str()) {
                        if !kv_remove(&self.db, kj.as_str()) {
                            all_removed = false;
                        }
                    }
                },
                None => {},
            }
            j += 1;
        }
        if all_removed {
            Ok(())
        } else {
            Err(VibraError::StorageIOFailure)
        }
    }

    /// Clears the cache and the collaborator entirely.
    pub fn truncate_db(&mut self) -> (r: Result<(), VibraError>)
        requires
            old(self).wf(),
        ensures
            final(self).wf(),
            old(self).same_store(final(self)),
            final(self).cache_model() == empty_cache_model(),
            r matches Err(e) ==> e == VibraError::StorageIOFailure,
    {
        cache_clear(&mut self.cache);
        proof {
            assert(empty_cache_model().dom() =~= Set::<Seq<char>>::empty());
        }
        if kv_clear(&self.db) {
            Ok(())
        } else {
            Err(VibraError::StorageIOFailure)
        }
    }

    /// The storage location handed to the collaborator at construction.
    pub fn storage_path(&self) -> (r: &String)
        ensures
            r@ == self.path_model(),
    {
        &self.path
    }
}

/// The cache contents after a batch of rows is written through, in order:
/// every row's composite key mapped to its canonical payload, a later row
/// overwriting an earlier one that reuses its id.
pub open spec fn cache_after_inserts(
    m: Map<Seq<char>, Seq<u8>>,
    table: Seq<char>,
    rows: Seq<Row>,
) -> Map<Seq<char>, Seq<u8>>
    decreases rows.len(),
{
    if rows.len() == 0 {
        m
    } else {
        cache_after_inserts(m, table, rows.drop_last()).insert(
            row_key(table, rows.last().id@),
            json_of(cols_view(rows.last().columns@)),
        )
    }
}

/// Batch insertion keeps every row whose id no later row of the batch reuses:
/// after the batch, its composite key is resident with its canonical payload.
pub proof fn lemma_cache_after_inserts_contains(
    m: Map<Seq<char>, Seq<u8>>,
    table: Seq<char>,
    rows: Seq<Row>,
    i: int,
)
    requires
        0 <= i < rows.len(),
        forall|j: int| i < j < rows.len() ==> rows[j].id@ != rows[i].id@,
    ensures
        cache_after_inserts(m, table, rows).contains_pair(
            row_key(table, rows[i].id@),
            json_of(cols_view(rows[i].columns@)),
        ),
    decreases rows.len(),
{
    if i == rows.len() - 1 {
    } else {
        assert(rows.drop_last()[i] == rows[i]);
        lemma_cache_after_inserts_contains(m, table, rows.drop_last(), i);
        crate::codec::lemma_row_key_distinct(table, rows.last().id@, rows[i].id@);
    }
}

/// Cache coherence: the cache state that `insert_row` establishes for a row —
/// its composite key resident and mapped to the canonical encoding of its
/// columns — is exactly what the cache-hit contract of `get_row` consumes, so
/// an immediate read of the same key returns those columns from the cache
/// alone, with no collaborator read.
pub proof fn lemma_cache_coherence(
    m: Map<Seq<char>, Seq<u8>>,
    table: Seq<char>,
    id: Seq<char>,
    cv: Seq<(Seq<char>, Seq<char>)>,
)
    requires
        m.contains_pair(row_key(table, id), json_of(cv)),
        cols_of(json_of(cv)) == Some(cv),
    ensures
        m.contains_key(row_key(table, id)),
        cols_of(m[row_key(table, id)]) == Some(cv),
{
}

} // verus!
