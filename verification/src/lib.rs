//! A hierarchical, keyed entry store: a tree of nodes addressed by `u32` keys,
//! where each node is either a container (an ordered list of child keys) or a
//! leaf (an attribute record holding a `path` string), built on top of the
//! `gulkana` keyed link-graph engine.
//!
//! The root container always lives at key `0`.  Mutations allocate fresh
//! random keys, maintain the parent/child link invariant, and — when a
//! backing path is configured — produce a full serialized snapshot of the
//! store that the embedding program is expected to write out.

mod codec;
mod engine;
mod errors;
mod store;

pub use codec::{
    db_entry_to_map, entry_record, is_entry_record, lemma_codec_round_trip,
    lemma_entry_record_lookup, map_to_db_entry, record_lookup, record_path, DBEntry, DBExtType,
};
pub use errors::FSError;
pub use store::{
    lemma_insert_frame, lemma_insert_kind, lemma_insert_then_get, lemma_inserted_child_once,
    lemma_inserted_keys_distinct, lemma_make_dir_kind, lemma_wf_public_facts, new, new_backed,
    ChildIter, Database, StoreModel,
};
