//! Trusted boundary to the `gulkana` keyed link-graph engine and to the
//! random source.
//!
//! The engine stores, under `u32` keys, nodes that are each either a data
//! node (here: an attribute record, a list of name/value string pairs) or a
//! link node (an ordered list of child keys).  Its contents are modelled by
//! the two uninterpreted maps [`leaf_records_of`] and [`link_lists_of`].
//! Every `DataStructure` this crate creates is unbacked ([`engine_unbacked`]):
//! it never has a file of its own, so its mutators never perform I/O.

use vstd::prelude::*;

use crate::errors::FSError;

verus! {

/// The engine instance this crate uses: a `gulkana::DataStructure` with
/// `u32` keys, attribute records as data, and a `u32` link label (always
/// `0`; this layer never reads it).  The structure is held opaquely; every
/// operation on it goes through the trusted wrappers below.
#[verifier::external_body]
pub struct Engine {
    inner: gulkana::DataStructure<u32, Vec<(String, String)>, u32>,
}

/// The attribute records held by the engine's data nodes, keyed by node key.
pub uninterp spec fn leaf_records_of(db: Engine) -> Map<u32, Seq<(Seq<char>, Seq<char>)>>;

/// The child-key lists held by the engine's link nodes, keyed by node key.
pub uninterp spec fn link_lists_of(db: Engine) -> Map<u32, Seq<u32>>;

/// Whether the engine instance has no file backing of its own, so that its
/// mutating operations touch memory only.  Everything this crate creates
/// stays unbacked; snapshots are serialized explicitly instead.
pub uninterp spec fn engine_unbacked(db: Engine) -> bool;

/// The engine's serialization of a store value: what
/// `gulkana::DataStructure::to_string` returns.  The format is opaque to
/// this layer; the serialization is deterministic, a function of the store
/// value alone.
pub uninterp spec fn serial_of(db: Engine) -> Seq<char>;

/// Relies on `gulkana::new_datastructure`: returns an empty, unbacked store.
#[verifier::external_body]
pub(crate) fn engine_new() -> (r: Engine)
    ensures
        (leaf_records_of(r) == Map::<u32, Seq<(Seq<char>, Seq<char>)>>::empty()),
        (link_lists_of(r) == Map::<u32, Seq<u32>>::empty()),
        engine_unbacked(r),
{
    Engine { inner: gulkana::new_datastructure::<u32, Vec<(String, String)>, u32>() }
}

/// Relies on `gulkana::DataStructure::contains`: reports whether any node
/// (of either kind) is stored under `key`.
#[verifier::external_body]
pub(crate) fn engine_contains(db: &Engine, key: u32) -> (r: bool)
    ensures
        r == (leaf_records_of(*db).dom().contains(key) || link_lists_of(*db).dom().contains(
            key,
        )),
{
    db.inner.contains(&key)
}

/// Relies on `gulkana::DataStructure::insert`: creates a data node under a
/// fresh key, and rejects a key already in use with `KeyAllreadyPresent`.
#[verifier::external_body]
pub(crate) fn engine_insert_data(db: &mut Engine, key: u32, rec: Vec<(String, String)>) -> (r:
    Result<(), FSError>)
    requires
        engine_unbacked(*old(db)),
    ensures
        engine_unbacked(*final(db)),
        ({
            let leaves = leaf_records_of(*old(db));
            let links = link_lists_of(*old(db));
            if !leaves.dom().contains(key) && !links.dom().contains(key) {
                &&& r is Ok
                &&& leaf_records_of(*final(db)) == leaves.insert(key, rec.deep_view())
                &&& link_lists_of(*final(db)) == links
            } else {
                &&& r == Err::<(), FSError>(FSError::KeyAllreadyPresent)
                &&& *final(db) == *old(db)
            }
        }),
{
    match db.inner.insert(&key, rec) {
        Ok(()) => Ok(()),
        Err(gulkana::DBOperationError::KeyAllreadyPresent) => Err(FSError::KeyAllreadyPresent),
        Err(gulkana::DBOperationError::KeyNotFound) => Err(FSError::KeyNotFound),
        Err(gulkana::DBOperationError::NodeNotLink) => Err(FSError::NodeNotLink),
        Err(gulkana::DBOperationError::NodeNotData) => Err(FSError::NodeNotData),
        Err(_) => Err(FSError::FileError),
    }
}

/// Relies on `gulkana::DataStructure::insert_link`: creates a link node with
/// the given children under a fresh key, and rejects a key already in use
/// with `KeyAllreadyPresent`.  The link label is fixed to `0`.
#[verifier::external_body]
pub(crate) fn engine_insert_link(db: &mut Engine, key: u32, children: &Vec<u32>) -> (r: Result<
    (),
    FSError,
>)
    requires
        engine_unbacked(*old(db)),
    ensures
        engine_unbacked(*final(db)),
        ({
            let leaves = leaf_records_of(*old(db));
            let links = link_lists_of(*old(db));
            if !leaves.dom().contains(key) && !links.dom().contains(key) {
                &&& r is Ok
                &&& link_lists_of(*final(db)) == links.insert(key, children@)
                &&& leaf_records_of(*final(db)) == leaves
            } else {
                &&& r == Err::<(), FSError>(FSError::KeyAllreadyPresent)
                &&& *final(db) == *old(db)
            }
        }),
{
    match db.inner.insert_link(&key, children, 0u32) {
        Ok(()) => Ok(()),
        Err(gulkana::DBOperationError::KeyAllreadyPresent) => Err(FSError::KeyAllreadyPresent),
        Err(gulkana::DBOperationError::KeyNotFound) => Err(FSError::KeyNotFound),
        Err(gulkana::DBOperationError::NodeNotLink) => Err(FSError::NodeNotLink),
        Err(gulkana::DBOperationError::NodeNotData) => Err(FSError::NodeNotData),
        Err(_) => Err(FSError::FileError),
    }
}

/// Relies on `gulkana::DataStructure::append_links`: appends a child key to
/// a link node's list.  Fails with `NodeNotLink` on a data node, with
/// `KeyNotFound` on an absent key, and with `KeyAllreadyPresent` when the
/// child is already in the list.
#[verifier::external_body]
pub(crate) fn engine_append_link(db: &mut Engine, key: u32, child: u32) -> (r: Result<
    (),
    FSError,
>)
    requires
        engine_unbacked(*old(db)),
    ensures
        engine_unbacked(*final(db)),
        ({
            let leaves = leaf_records_of(*old(db));
            let links = link_lists_of(*old(db));
            if links.dom().contains(key) && !links[key].contains(child) {
                &&& r is Ok
                &&& link_lists_of(*final(db)) == links.insert(key, links[key].push(child))
                &&& leaf_records_of(*final(db)) == leaves
            } else if links.dom().contains(key) {
                &&& r == Err::<(), FSError>(FSError::KeyAllreadyPresent)
                &&& *final(db) == *old(db)
            } else if leaves.dom().contains(key) {
                &&& r == Err::<(), FSError>(FSError::NodeNotLink)
                &&& *final(db) == *old(db)
            } else {
                &&& r == Err::<(), FSError>(FSError::KeyNotFound)
                &&& *final(db) == *old(db)
            }
        }),
{
    match db.inner.append_links(&key, &child) {
        Ok(()) => Ok(()),
        Err(gulkana::DBOperationError::KeyAllreadyPresent) => Err(FSError::KeyAllreadyPresent),
        Err(gulkana::DBOperationError::KeyNotFound) => Err(FSError::KeyNotFound),
        Err(gulkana::DBOperationError::NodeNotLink) => Err(FSError::NodeNotLink),
        Err(gulkana::DBOperationError::NodeNotData) => Err(FSError::NodeNotData),
        Err(_) => Err(FSError::FileError),
    }
}

/// Relies on `gulkana::DataStructure::get`: returns (a clone of) the
/// attribute record of the data node under `key`.  Fails with `NodeNotData`
/// on a link node and with `KeyNotFound` on an absent key.
#[verifier::external_body]
pub(crate) fn engine_get_data(db: &Engine, key: u32) -> (r: Result<Vec<(String, String)>, FSError>)
    ensures
        r is Ok <==> leaf_records_of(*db).dom().contains(key),
        r matches Ok(rec) ==> rec.deep_view() == leaf_records_of(*db)[key],
        r matches Err(e) ==> (if link_lists_of(*db).dom().contains(key) {
            e == FSError::NodeNotData
        } else {
            e == FSError::KeyNotFound
        }),
{
    match db.inner.get(&key) {
        Ok(rec) => Ok(rec.clone()),
        Err(gulkana::DBOperationError::KeyNotFound) => Err(FSError::KeyNotFound),
        Err(gulkana::DBOperationError::NodeNotData) => Err(FSError::NodeNotData),
        Err(gulkana::DBOperationError::NodeNotLink) => Err(FSError::NodeNotLink),
        Err(_) => Err(FSError::FileError),
    }
}

/// Relies on `gulkana::DataStructure::get_links`: returns a reference to the
/// child-key list of the link node under `key`.  Fails with `NodeNotLink` on
/// a data node and with `KeyNotFound` on an absent key.
#[verifier::external_body]
pub(crate) fn engine_get_links(db: &Engine, key: u32) -> (r: Result<&Vec<u32>, FSError>)
    ensures
        r is Ok <==> link_lists_of(*db).dom().contains(key),
        r matches Ok(v) ==> v@ == link_lists_of(*db)[key],
        r matches Err(e) ==> (if leaf_records_of(*db).dom().contains(key) {
            e == FSError::NodeNotLink
        } else {
            e == FSError::KeyNotFound
        }),
{
    match db.inner.get_links(&key) {
        Ok(v) => Ok(v),
        Err(gulkana::DBOperationError::KeyNotFound) => Err(FSError::KeyNotFound),
        Err(gulkana::DBOperationError::NodeNotLink) => Err(FSError::NodeNotLink),
        Err(gulkana::DBOperationError::NodeNotData) => Err(FSError::NodeNotData),
        Err(_) => Err(FSError::FileError),
    }
}

/// Relies on `gulkana::DataStructure::to_string`: serializes the whole
/// store, via `serde_json::to_string`, into a string whose format is opaque
/// to this layer (named [`serial_of`]).  On this instantiation — `u32` map
/// keys, and nodes of options, vectors, tuples and strings — serde_json's
/// in-memory serialization cannot fail, so the call always succeeds.
#[verifier::external_body]
pub(crate) fn engine_to_string(db: &Engine) -> (r: Result<String, FSError>)
    ensures
        r is Ok,
        r matches Ok(s) ==> s@ == serial_of(*db),
{
    match db.inner.to_string() {
        Ok(s) => Ok(s),
        Err(_) => Err(FSError::SerializeError),
    }
}

/// Relies on `rand::random`: a uniformly random value; nothing can be
/// promised about it.
pub assume_specification<T>[ rand::random::<T> ]() -> (r: T)
    where
        rand::distributions::Standard: rand::distributions::Distribution<T>,
;

} // verus!
