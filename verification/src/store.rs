//! The database façade: key allocation, the parent/child link invariant,
//! node-kind enforcement, and snapshot sequencing, over the trusted engine
//! boundary of [`crate::engine`].

use vstd::prelude::*;

use crate::codec::{
    db_entry_to_map, is_entry_record, lemma_entry_record_lookup, map_to_db_entry, record_path,
    DBEntry,
};
use crate::engine::{
    engine_append_link, engine_contains, engine_get_data, engine_get_links, engine_insert_data,
    engine_insert_link, engine_new, engine_to_string, engine_unbacked, leaf_records_of,
    link_lists_of, serial_of, Engine,
};
use crate::errors::FSError;

verus! {

/// How many fresh random candidates the key allocator draws before it gives
/// up with a collision error.
const MAX_KEY_ATTEMPTS: u32 = 64;

/// The abstract state of a store: the leaf entries (key to path) and the
/// containers (key to ordered child-key list), with disjoint key spaces.
#[verifier::ext_equal]
pub struct StoreModel {
    pub entries: Map<u32, Seq<char>>,
    pub dirs: Map<u32, Seq<u32>>,
}

impl StoreModel {
    /// Whether any node (of either kind) lives under `k`.
    pub open spec fn has_key(self, k: u32) -> bool {
        self.entries.dom().contains(k) || self.dirs.dom().contains(k)
    }

    /// The state after inserting a leaf with path `path` under the fresh key
    /// `k` as a child of container `parent`.
    pub open spec fn with_entry(self, k: u32, path: Seq<char>, parent: u32) -> StoreModel {
        StoreModel {
            entries: self.entries.insert(k, path),
            dirs: self.dirs.insert(parent, self.dirs[parent].push(k)),
        }
    }

    /// The state after creating an empty container under the fresh key `k`.
    pub open spec fn with_dir(self, k: u32) -> StoreModel {
        StoreModel { entries: self.entries, dirs: self.dirs.insert(k, Seq::empty()) }
    }

    /// The state of a freshly constructed store: only the root container,
    /// key `0`, with no children.
    pub open spec fn init() -> StoreModel {
        StoreModel {
            entries: Map::empty(),
            dirs: Map::empty().insert(0u32, Seq::empty()),
        }
    }

    /// Every child key in every container refers to a node in the store.
    pub open spec fn children_exist(self) -> bool {
        forall|p: u32, i: int|
            self.dirs.dom().contains(p) && 0 <= i < self.dirs[p].len() ==> self.has_key(
                #[trigger] self.dirs[p][i],
            )
    }
}

/// The keyed entry store: a tree of containers and leaves over the engine,
/// with an optional backing path and, when backed, the serialized snapshot
/// produced by the latest mutation, waiting to be written out.
pub struct Database {
    db: Engine,
    file_backing: Option<String>,
    pending_snapshot: Option<String>,
}

impl View for Database {
    type V = StoreModel;

    closed spec fn view(&self) -> StoreModel {
        StoreModel {
            entries: Map::new(
                |k: u32| leaf_records_of(self.db).dom().contains(k),
                |k: u32| record_path(leaf_records_of(self.db)[k]),
            ),
            dirs: link_lists_of(self.db),
        }
    }
}

impl Database {
    /// Whether a backing path is configured.
    pub closed spec fn is_backed(&self) -> bool {
        self.file_backing is Some
    }

    /// Whether a snapshot produced by a mutation is waiting to be written.
    pub closed spec fn has_pending(&self) -> bool {
        self.pending_snapshot is Some
    }

    /// The engine's serialization of the store as it stands now.
    pub closed spec fn store_serial(&self) -> Seq<char> {
        serial_of(self.db)
    }

    /// Whatever snapshot is pending is exactly the serialization of the
    /// store as it stands now: mutations refresh the snapshot before they
    /// return, so a parked snapshot is never stale.
    pub closed spec fn snapshot_tied(&self) -> bool {
        self.pending_snapshot matches Some(s) ==> s@ == serial_of(self.db)
    }

    /// Well-formedness: the engine instance is unbacked, every stored leaf
    /// record has the codec's shape, the two node kinds occupy disjoint key
    /// spaces, the root container exists, every child link points at an
    /// existing node, and a pending snapshot only exists when backed and is
    /// the serialization of the current store.
    pub closed spec fn wf(&self) -> bool {
        &&& self.wf_base()
        &&& self.snapshot_tied()
        &&& self@.dirs.dom().contains(0u32)
    }

    /// [`Database::wf`] without the root-existence clause; internally the
    /// root is created one step after the engine instance.
    pub closed spec fn wf_base(&self) -> bool {
        &&& engine_unbacked(self.db)
        &&& forall|k: u32|
            #[trigger] leaf_records_of(self.db).dom().contains(k) ==> is_entry_record(
                leaf_records_of(self.db)[k],
            )
        &&& leaf_records_of(self.db).dom().disjoint(link_lists_of(self.db).dom())
        &&& self@.children_exist()
        &&& (self.has_pending() ==> self.is_backed())
    }
}

/// Draws uniformly random candidate keys until one is absent from the
/// store, giving up with `KeyAllreadyPresent` after a bounded number of
/// colliding attempts.
fn alloc_key(db: &Engine) -> (r: Result<u32, FSError>)
    ensures
        match r {
            Ok(k) => !leaf_records_of(*db).dom().contains(k) && !link_lists_of(*db).dom().contains(
                k,
            ),
            Err(e) => e == FSError::KeyAllreadyPresent,
        },
{
    let mut attempts: u32 = 0;
    while attempts < MAX_KEY_ATTEMPTS
        decreases MAX_KEY_ATTEMPTS - attempts,
    {
        let candidate: u32 = rand::random::<u32>();
        if !engine_contains(db, candidate) {
            return Ok(candidate);
        }
        attempts = attempts + 1;
    }
    Err(FSError::KeyAllreadyPresent)
}

impl Database {
    /// When a backing path is configured, serializes the whole store and
    /// parks the snapshot for the embedding program to write out; a no-op
    /// otherwise.  Serialization of this in-memory structure cannot fail,
    /// so neither can this step.
    fn write_snapshot(&mut self) -> (r: Result<(), FSError>)
        requires
            old(self).wf_base(),
        ensures
            final(self).wf_base(),
            final(self).snapshot_tied(),
            final(self)@ == old(self)@,
            final(self).is_backed() == old(self).is_backed(),
            final(self).store_serial() == old(self).store_serial(),
            r is Ok,
            old(self).is_backed() ==> final(self).has_pending(),
            !old(self).is_backed() ==> final(self).has_pending() == old(self).has_pending(),
    {
        if self.file_backing.is_some() {
            match engine_to_string(&self.db) {
                Ok(s) => {
                    self.pending_snapshot = Some(s);
                    Ok(())
                }
                Err(e) => {
                    proof {
                        assert(false);
                    }
                    Err(e)
                }
            }
        } else {
            Ok(())
        }
    }

    /// Creates an empty container under the given key, failing with
    /// `KeyAllreadyPresent` when the key is in use; then snapshots.
    fn make_dir_key(&mut self, key: u32) -> (r: Result<(), FSError>)
        requires
            old(self).wf_base(),
        ensures
            final(self).wf_base(),
            final(self).is_backed() == old(self).is_backed(),
            match r {
                Ok(()) => {
                    &&& !old(self)@.has_key(key)
                    &&& final(self)@ == old(self)@.with_dir(key)
                    &&& final(self).snapshot_tied()
                    &&& (old(self).is_backed() ==> final(self).has_pending())
                    &&& (!old(self).is_backed() ==> final(self).has_pending() == old(
                        self,
                    ).has_pending())
                }
                Err(e) => {
                    &&& e == FSError::KeyAllreadyPresent
                    &&& old(self)@.has_key(key)
                    &&& *final(self) == *old(self)
                }
            },
    {
        let ghost pre = *self;
        if engine_contains(&self.db, key) {
            return Err(FSError::KeyAllreadyPresent);
        }
        let children: Vec<u32> = Vec::new();
        let res = engine_insert_link(&mut self.db, key, &children);
        match res {
            Ok(()) => {}
            Err(e) => {
                proof {
                    assert(false);
                }
                return Err(e);
            }
        }
        proof {
            assert(children@ =~= Seq::<u32>::empty());
            assert(self@.entries =~= pre@.entries);
            assert(self@ =~= pre@.with_dir(key));
            assert forall|p: u32, i: int|
                self@.dirs.dom().contains(p) && 0 <= i < self@.dirs[p].len() implies self@.has_key(
                self@.dirs[p][i],
            ) by {
                if p != key {
                    assert(pre@.dirs[p][i] == self@.dirs[p][i]);
                    assert(pre@.has_key(pre@.dirs[p][i]));
                }
            }
        }
        match self.write_snapshot() {
            Ok(()) => Ok(()),
            Err(e) => Err(e),
        }
    }

    /// Inserts a leaf entry as a child of the container `parent`: allocates
    /// a fresh key, stores the encoded record there, appends the key to the
    /// parent's child list, snapshots, and returns the new key.
    ///
    /// Fails with `KeyNotFound` exactly when `parent` is absent, with
    /// `NodeNotLink` when `parent` is a leaf, and with `KeyAllreadyPresent`
    /// when the bounded allocator found only colliding keys; on every
    /// failure the store is unchanged.
    pub fn insert(&mut self, input: DBEntry, parent: u32) -> (r: Result<u32, FSError>)
        requires
            old(self).wf(),
        ensures
            final(self).wf(),
            final(self).is_backed() == old(self).is_backed(),
            match r {
                Ok(k) => {
                    &&& old(self)@.dirs.dom().contains(parent)
                    &&& !old(self)@.has_key(k)
                    &&& final(self)@ == old(self)@.with_entry(k, input.path@, parent)
                    &&& (old(self).is_backed() ==> final(self).has_pending())
                    &&& (!old(self).is_backed() ==> final(self).has_pending() == old(
                        self,
                    ).has_pending())
                }
                Err(e) => {
                    &&& *final(self) == *old(self)
                    &&& {
                        ||| (e == FSError::KeyNotFound && !old(self)@.has_key(parent))
                        ||| (e == FSError::NodeNotLink && old(self)@.entries.dom().contains(
                            parent,
                        ))
                        ||| (e == FSError::KeyAllreadyPresent && old(self)@.dirs.dom().contains(
                            parent,
                        ))
                    }
                }
            },
    {
        let ghost pre = *self;
        proof {
            assert(self@.entries.dom() =~= leaf_records_of(self.db).dom());
        }
        match engine_get_links(&self.db, parent) {
            Ok(_) => {}
            Err(e) => {
                return Err(e);
            }
        }
        let key = match alloc_key(&self.db) {
            Ok(k) => k,
            Err(e) => {
                return Err(e);
            }
        };
        let rec = db_entry_to_map(&input);
        match engine_insert_data(&mut self.db, key, rec) {
            Ok(()) => {}
            Err(e) => {
                proof {
                    assert(false);
                }
                return Err(e);
            }
        }
        proof {
            if link_lists_of(pre.db)[parent].contains(key) {
                let i = choose|i: int|
                    0 <= i < link_lists_of(pre.db)[parent].len() && link_lists_of(
                        pre.db,
                    )[parent][i] == key;
                assert(pre@.has_key(pre@.dirs[parent][i]));
                assert(false);
            }
        }
        match engine_append_link(&mut self.db, parent, key) {
            Ok(()) => {}
            Err(e) => {
                proof {
                    assert(false);
                }
                return Err(e);
            }
        }
        proof {
            assert(self@.entries =~= pre@.entries.insert(key, input.path@));
            assert(self@ =~= pre@.with_entry(key, input.path@, parent));
            assert forall|p: u32, i: int|
                self@.dirs.dom().contains(p) && 0 <= i < self@.dirs[p].len() implies self@.has_key(
                self@.dirs[p][i],
            ) by {
                if p == parent {
                    if i < pre@.dirs[parent].len() {
                        assert(pre@.has_key(pre@.dirs[p][i]));
                    }
                } else {
                    assert(pre@.has_key(pre@.dirs[p][i]));
                }
            }
        }
        match self.write_snapshot() {
            Ok(()) => Ok(key),
            Err(e) => {
                proof {
                    assert(false);
                }
                Err(e)
            }
        }
    }

    /// Allocates a fresh key, creates an empty container there, snapshots,
    /// and returns the key.  The new container has no parent: it is the
    /// caller's responsibility to remember the key and insert under it.
    pub fn make_dir(&mut self) -> (r: Result<u32, FSError>)
        requires
            old(self).wf(),
        ensures
            final(self).wf(),
            final(self).is_backed() == old(self).is_backed(),
            match r {
                Ok(k) => {
                    &&& !old(self)@.has_key(k)
                    &&& final(self)@ == old(self)@.with_dir(k)
                    &&& (old(self).is_backed() ==> final(self).has_pending())
                    &&& (!old(self).is_backed() ==> final(self).has_pending() == old(
                        self,
                    ).has_pending())
                }
                Err(e) => {
                    &&& e == FSError::KeyAllreadyPresent
                    &&& *final(self) == *old(self)
                }
            },
    {
        let key = match alloc_key(&self.db) {
            Ok(k) => k,
            Err(e) => {
                return Err(e);
            }
        };
        match self.make_dir_key(key) {
            Ok(()) => Ok(key),
            Err(e) => {
                proof {
                    assert(false);
                }
                Err(e)
            }
        }
    }

    /// Fetches and decodes the leaf at `key`; fails with `NodeNotData` on a
    /// container and with `KeyNotFound` on an absent key.
    pub fn get(&self, key: &u32) -> (r: Result<DBEntry, FSError>)
        requires
            self.wf(),
        ensures
            match r {
                Ok(e) => self@.entries.dom().contains(*key) && e.path@ == self@.entries[*key],
                Err(e) => {
                    ||| (e == FSError::NodeNotData && self@.dirs.dom().contains(*key))
                    ||| (e == FSError::KeyNotFound && !self@.has_key(*key))
                }
            },
    {
        let rec = match engine_get_data(&self.db, *key) {
            Ok(rec) => rec,
            Err(e) => {
                return Err(e);
            }
        };
        match map_to_db_entry(&rec) {
            Ok(e) => {
                proof {
                    assert(is_entry_record(rec.deep_view()));
                    lemma_entry_record_lookup(rec.deep_view());
                }
                Ok(e)
            }
            Err(err) => {
                proof {
                    assert(is_entry_record(rec.deep_view()));
                    lemma_entry_record_lookup(rec.deep_view());
                    assert(false);
                }
                Err(err)
            }
        }
    }

    /// The ordered child-key list of the container at `key`; fails with
    /// `NodeNotLink` on a leaf and with `KeyNotFound` on an absent key.
    pub fn get_node_children(&self, key: u32) -> (r: Result<&Vec<u32>, FSError>)
        requires
            self.wf(),
        ensures
            match r {
                Ok(v) => self@.dirs.dom().contains(key) && v@ == self@.dirs[key],
                Err(e) => {
                    ||| (e == FSError::NodeNotLink && self@.entries.dom().contains(key))
                    ||| (e == FSError::KeyNotFound && !self@.has_key(key))
                }
            },
    {
        engine_get_links(&self.db, key)
    }

    /// Hands out the snapshot produced by the latest mutation, if one is
    /// waiting, and clears it.  The embedding program writes it to the
    /// backing path; the store itself performs no file I/O.
    pub fn take_snapshot(&mut self) -> (r: Option<String>)
        requires
            old(self).wf(),
        ensures
            final(self).wf(),
            final(self)@ == old(self)@,
            final(self).is_backed() == old(self).is_backed(),
            final(self).store_serial() == old(self).store_serial(),
            !final(self).has_pending(),
            r is Some <==> old(self).has_pending(),
            r matches Some(snap) ==> snap@ == old(self).store_serial(),
    {
        let mut r: Option<String> = None;
        core::mem::swap(&mut r, &mut self.pending_snapshot);
        r
    }
}

/// A finite, non-restartable enumeration of a container's children, each
/// child key paired with its decoded entry.  A child whose leaf lookup
/// fails is silently skipped: enumeration is best-effort by design and
/// never fails outright because of one bad child.
pub struct ChildIter<'a> {
    db: &'a Database,
    keys: &'a Vec<u32>,
    pos: usize,
}

impl<'a> ChildIter<'a> {
    /// Validity: the underlying store is well-formed and the cursor is in
    /// bounds.
    pub closed spec fn wf(&self) -> bool {
        self.db.wf() && self.pos <= self.keys@.len()
    }

    /// The store being enumerated.
    pub closed spec fn store(&self) -> StoreModel {
        self.db@
    }

    /// The child-key list being walked.
    pub closed spec fn key_seq(&self) -> Seq<u32> {
        self.keys@
    }

    /// The cursor: how many child keys have been consumed.
    pub closed spec fn position(&self) -> int {
        self.pos as int
    }

    /// Yields the next child whose leaf lookup succeeds, together with its
    /// key, skipping the children in between; `None` once no child at or
    /// after the cursor is a leaf.
    #[verifier::loop_isolation(false)]
    pub fn next(&mut self) -> (r: Option<(u32, DBEntry)>)
        requires
            old(self).wf(),
        ensures
            final(self).wf(),
            final(self).store() == old(self).store(),
            final(self).key_seq() == old(self).key_seq(),
            match r {
                Some(p) => ({
                    let ks = old(self).key_seq();
                    let m = old(self).store();
                    let j = final(self).position() - 1;
                    &&& old(self).position() <= j < ks.len()
                    &&& ks[j] == p.0
                    &&& m.entries.dom().contains(p.0)
                    &&& p.1.path@ == m.entries[p.0]
                    &&& (forall|i: int|
                        old(self).position() <= i < j ==> !m.entries.dom().contains(
                            #[trigger] ks[i],
                        ))
                }),
                None => ({
                    let ks = old(self).key_seq();
                    let m = old(self).store();
                    &&& final(self).position() == ks.len()
                    &&& (forall|i: int|
                        old(self).position() <= i < ks.len() ==> !m.entries.dom().contains(
                            #[trigger] ks[i],
                        ))
                }),
            },
    {
        let ghost db0 = self.db;
        let ghost keys0 = self.keys;
        let ghost m = self.db@;
        let ghost p0 = self.pos as int;
        while self.pos < self.keys.len()
            invariant
                self.db == db0,
                self.keys == keys0,
                db0.wf(),
                m == db0@,
                p0 <= self.pos as int <= self.keys@.len(),
                forall|i: int|
                    p0 <= i < self.pos as int ==> !m.entries.dom().contains(
                        #[trigger] self.keys@[i],
                    ),
            decreases self.keys@.len() - self.pos,
        {
            let k = self.keys[self.pos];
            self.pos = self.pos + 1;
            match self.db.get(&k) {
                Ok(e) => {
                    return Some((k, e));
                }
                Err(_) => {}
            }
        }
        None
    }
}

impl Database {
    /// Begins a best-effort enumeration of the container at `key`; fails
    /// with `NodeNotLink` on a leaf and with `KeyNotFound` on an absent
    /// key.
    pub fn iter_children<'a>(&'a self, key: &u32) -> (r: Result<ChildIter<'a>, FSError>)
        requires
            self.wf(),
        ensures
            match r {
                Ok(it) => {
                    &&& self@.dirs.dom().contains(*key)
                    &&& it.wf()
                    &&& it.store() == self@
                    &&& it.key_seq() == self@.dirs[*key]
                    &&& it.position() == 0
                }
                Err(e) => {
                    ||| (e == FSError::NodeNotLink && self@.entries.dom().contains(*key))
                    ||| (e == FSError::KeyNotFound && !self@.has_key(*key))
                }
            },
    {
        match engine_get_links(&self.db, *key) {
            Ok(v) => Ok(ChildIter { db: self, keys: v, pos: 0 }),
            Err(e) => Err(e),
        }
    }
}

/// Round trip: after an insert of path `path` under an existing container
/// of a store in which `k` was fresh, the store maps `k` to exactly that
/// path — so `get(k)`, whose contract pins its result to `entries[k]`,
/// must return the inserted entry.
pub proof fn lemma_insert_then_get(m: StoreModel, k: u32, path: Seq<char>, parent: u32)
    requires
        m.dirs.dom().contains(parent),
        !m.has_key(k),
    ensures
        m.with_entry(k, path, parent).entries.dom().contains(k),
        m.with_entry(k, path, parent).entries[k] == path,
{
}

/// Kind enforcement, container side: a key created by `make_dir` denotes a
/// container and no leaf, so `get` on it must fail with `NodeNotData`.
pub proof fn lemma_make_dir_kind(m: StoreModel, k: u32)
    requires
        !m.has_key(k),
    ensures
        m.with_dir(k).dirs.dom().contains(k),
        !m.with_dir(k).entries.dom().contains(k),
{
}

/// Kind enforcement, leaf side: a key created by `insert` denotes a leaf
/// and no container, so `get_node_children` on it must fail with
/// `NodeNotLink`.
pub proof fn lemma_insert_kind(m: StoreModel, k: u32, path: Seq<char>, parent: u32)
    requires
        m.dirs.dom().contains(parent),
        !m.has_key(k),
    ensures
        m.with_entry(k, path, parent).entries.dom().contains(k),
        !m.with_entry(k, path, parent).dirs.dom().contains(k),
{
}

/// Child membership: an insert appends the fresh key to the parent's child
/// list, where it then occurs exactly once — fresh keys never already sit
/// in a well-formed store's child lists.
pub proof fn lemma_inserted_child_once(m: StoreModel, k: u32, path: Seq<char>, parent: u32)
    requires
        m.children_exist(),
        m.dirs.dom().contains(parent),
        !m.has_key(k),
    ensures
        m.with_entry(k, path, parent).dirs[parent] == m.dirs[parent].push(k),
        !m.dirs[parent].contains(k),
        m.with_entry(k, path, parent).dirs[parent].to_multiset().count(k) == 1,
{
    if m.dirs[parent].contains(k) {
        let i = choose|i: int| 0 <= i < m.dirs[parent].len() && m.dirs[parent][i] == k;
        assert(m.has_key(m.dirs[parent][i]));
        assert(false);
    }
    m.dirs[parent].to_multiset_ensures();
    assert(m.dirs[parent].to_multiset().count(k) == 0);
    assert(m.dirs[parent].push(k).to_multiset() =~= m.dirs[parent].to_multiset().insert(k));
}

/// Nested containers: an insert under `parent` leaves the child list of
/// every other container exactly as it was.
pub proof fn lemma_insert_frame(m: StoreModel, k: u32, path: Seq<char>, parent: u32, other: u32)
    requires
        other != parent,
        m.dirs.dom().contains(other),
    ensures
        m.with_entry(k, path, parent).dirs.dom().contains(other),
        m.with_entry(k, path, parent).dirs[other] == m.dirs[other],
{
}

/// Bulk uniqueness: a key fresh at one insert is present afterwards, so the
/// fresh key of any later insert differs — successive successful inserts
/// return pairwise distinct keys.
pub proof fn lemma_inserted_keys_distinct(
    m: StoreModel,
    k1: u32,
    path1: Seq<char>,
    p1: u32,
    k2: u32,
)
    requires
        !m.has_key(k1),
        !m.with_entry(k1, path1, p1).has_key(k2),
    ensures
        k1 != k2,
{
}

/// What every caller may assume of a well-formed store: a key never
/// denotes both a leaf and a container, and the root container at key `0`
/// exists.
pub proof fn lemma_wf_public_facts(db: &Database)
    requires
        db.wf(),
    ensures
        db@.entries.dom().disjoint(db@.dirs.dom()),
        db@.dirs.dom().contains(0u32),
{
    assert(db@.entries.dom() =~= leaf_records_of(db.db).dom());
}

/// Constructs an in-memory store whose root container lives at key `0`.
pub fn new() -> (r: Result<Database, FSError>)
    ensures
        r is Ok,
        r matches Ok(db) ==> ({
            &&& db.wf()
            &&& db@ == StoreModel::init()
            &&& !db.is_backed()
            &&& !db.has_pending()
        }),
{
    let mut db = Database { db: engine_new(), file_backing: None, pending_snapshot: None };
    proof {
        assert(db@.entries =~= Map::<u32, Seq<char>>::empty());
    }
    let res = db.make_dir_key(0);
    match res {
        Ok(()) => {}
        Err(e) => {
            proof {
                assert(false);
            }
            return Err(e);
        }
    }
    proof {
        assert(db@ =~= StoreModel::init());
    }
    Ok(db)
}

/// Constructs a store as [`new`] does, attaches `path` as the persistence
/// target, and produces the initial snapshot, which is left pending for the
/// embedding program to write to `path`.
pub fn new_backed(path: String) -> (r: Result<Database, FSError>)
    ensures
        r is Ok,
        r matches Ok(db) ==> ({
            &&& db.wf()
            &&& db@ == StoreModel::init()
            &&& db.is_backed()
            &&& db.has_pending()
        }),
{
    let mut db = match new() {
        Ok(d) => d,
        Err(e) => {
            proof {
                assert(false);
            }
            return Err(e);
        }
    };
    db.file_backing = Some(path);
    match db.write_snapshot() {
        Ok(()) => Ok(db),
        Err(e) => {
            proof {
                assert(false);
            }
            Err(e)
        }
    }
}

} // verus!

