//! Trusted boundary to the embedded durable store. Each tree is modelled
//! as a map from string keys to stored bytes; the wrappers below are the
//! only places where the outside store is touched, and their contracts
//! state what the store's own documentation promises: per-key atomic
//! `get` and `insert`, with `insert` returning the previous value.

use vstd::prelude::*;

verus! {

#[verifier::external_type_specification]
#[verifier::external_body]
pub struct ExSledDb(sled::Db);

#[verifier::external_type_specification]
#[verifier::external_body]
pub struct ExSledError(sled::Error);

/// What a store tree holds: the stored bytes under each key. Keys are
/// always written through `&str`, so the map is keyed by the string's
/// characters (distinct strings have distinct key bytes).
pub uninterp spec fn tree_entries(t: sled::Db) -> Map<Seq<char>, Seq<u8>>;

/// Relies on `sled::open`: opens the tree stored under `<dir>/<sub>`,
/// creating the directories if absent, and fails only when the storage
/// cannot be opened or created. Nothing is assumed about what an opened
/// tree holds: that depends on what is on disk.
#[verifier::external_body]
pub(crate) fn tree_open(dir: &str, sub: &str) -> Result<sled::Db, sled::Error> {
    sled::open(std::path::Path::new(dir).join(sub))
}

/// Relies on `sled::Tree::get`: returns the bytes stored under the key,
/// or absence; reads never observe a partial write.
#[verifier::external_body]
pub(crate) fn tree_get(t: &sled::Db, key: &str) -> (r: Result<Option<Vec<u8>>, sled::Error>)
    ensures
        match r {
            Ok(Some(v)) => tree_entries(*t).contains_key(key@) && tree_entries(*t)[key@] == v@,
            Ok(None) => !tree_entries(*t).contains_key(key@),
            Err(_) => true,
        },
{
    match t.get(key) {
        Ok(Some(ivec)) => Ok(Some(ivec.as_ref().to_vec())),
        Ok(None) => Ok(None),
        Err(e) => Err(e),
    }
}

/// Relies on `sled::Tree::insert`: stores the bytes under the key,
/// atomically for that key, and returns the previously stored bytes.
/// After a reported failure nothing is assumed of the tree.
#[verifier::external_body]
pub(crate) fn tree_insert(t: &mut sled::Db, key: &str, val: &Vec<u8>) -> (r: Result<
    Option<Vec<u8>>,
    sled::Error,
>)
    ensures
        match r {
            Ok(prev) => {
                &&& tree_entries(*final(t)) == tree_entries(*old(t)).insert(key@, val@)
                &&& match prev {
                    Some(p) => tree_entries(*old(t)).contains_key(key@) && tree_entries(*old(t))[key@]
                        == p@,
                    None => !tree_entries(*old(t)).contains_key(key@),
                }
            },
            Err(_) => true,
        },
{
    match t.insert(key, val.as_slice()) {
        Ok(Some(ivec)) => Ok(Some(ivec.as_ref().to_vec())),
        Ok(None) => Ok(None),
        Err(e) => Err(e),
    }
}

} // verus!
