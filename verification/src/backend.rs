//! Trusted interface to the embedded key-value store (sled).
//!
//! The contents of a tree are modelled by the uninterpreted map
//! [`tree_contents`]. The model treats a `sled::Tree` value as the sole live
//! handle to its keyspace: the store owns its two distinctly-named trees and
//! never clones a handle, so no aliased handle mutates a tree behind the
//! model's back.

use crate::errors::TrackerError;
use vstd::prelude::*;

verus! {

#[verifier::external_type_specification]
#[verifier::external_body]
pub struct ExDb(sled::Db);

#[verifier::external_type_specification]
#[verifier::external_body]
pub struct ExTree(sled::Tree);

/// The key-to-value map a tree holds, with keys and values as plain byte
/// sequences.
pub uninterp spec fn tree_contents(t: sled::Tree) -> Map<Seq<u8>, Seq<u8>>;

/// Relies on sled::Db::open_tree: returns a handle to the keyspace of the
/// database with the given name, creating it if it does not exist. Nothing
/// is assumed of the contents of the returned tree, which come from disk.
#[verifier::external_body]
pub(crate) fn db_open_tree(db: &sled::Db, name: &str) -> (r: Result<
    sled::Tree,
    TrackerError,
>)
    ensures
        r matches Err(e) ==> e == TrackerError::StorageFailure,
{
    match db.open_tree(name.as_bytes()) {
        Ok(t) => Ok(t),
        Err(_) => Err(TrackerError::StorageFailure),
    }
}

/// Relies on sled::Tree::get: returns the value stored under `key`, or
/// `None` if the key is absent; errors only when the persistence layer
/// fails, without touching the contents.
#[verifier::external_body]
pub(crate) fn tree_get(t: &sled::Tree, key: &Vec<u8>) -> (r: Result<
    Option<Vec<u8>>,
    TrackerError,
>)
    ensures
        r matches Ok(v) ==> match v {
            Some(value) => tree_contents(*t).contains_key(key@) && value@ == tree_contents(
                *t,
            )[key@],
            None => !tree_contents(*t).contains_key(key@),
        },
        r matches Err(e) ==> e == TrackerError::StorageFailure,
{
    match t.get(key.as_slice()) {
        Ok(Some(value)) => Ok(Some(value.to_vec())),
        Ok(None) => Ok(None),
        Err(_) => Err(TrackerError::StorageFailure),
    }
}

/// Relies on sled::Tree::insert: maps `key` to `value`, replacing any prior
/// value. On an error from the persistence layer the write may or may not
/// have taken effect; no third outcome exists.
#[verifier::external_body]
pub(crate) fn tree_insert(t: &mut sled::Tree, key: &Vec<u8>, value: &Vec<u8>) -> (r: Result<
    (),
    TrackerError,
>)
    ensures
        r is Ok ==> tree_contents(*final(t)) == tree_contents(*old(t)).insert(key@, value@),
        r matches Err(e) ==> e == TrackerError::StorageFailure && (tree_contents(*final(t))
            == tree_contents(*old(t)) || tree_contents(*final(t)) == tree_contents(
            *old(t),
        ).insert(key@, value@)),
{
    match t.insert(key.as_slice(), value.as_slice()) {
        Ok(_) => Ok(()),
        Err(_) => Err(TrackerError::StorageFailure),
    }
}

} // verus!
