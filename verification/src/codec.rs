//! The entry codec: converts the public leaf record [`DBEntry`] to and from
//! the attribute-record representation the engine stores — a list of
//! (attribute name, value) string pairs.  The only attribute currently
//! defined is `path`.

use vstd::prelude::*;

use crate::errors::FSError;

verus! {

/// The public-facing leaf record: the typed view of a leaf's attributes.
#[derive(Clone, Debug, PartialEq)]
pub struct DBEntry {
    pub path: String,
}

/// The record type handed back to embedding callers.
pub type DBExtType = DBEntry;

/// The attribute record that `db_entry_to_map` produces for a given path:
/// exactly one pair, the `path` attribute.
pub open spec fn entry_record(path: Seq<char>) -> Seq<(Seq<char>, Seq<char>)> {
    seq![("path"@, path)]
}

/// Whether an attribute record has the shape the codec writes.
pub open spec fn is_entry_record(rec: Seq<(Seq<char>, Seq<char>)>) -> bool {
    rec.len() == 1 && rec[0].0 == "path"@
}

/// The path stored in a record of the shape the codec writes.
pub open spec fn record_path(rec: Seq<(Seq<char>, Seq<char>)>) -> Seq<char> {
    rec[0].1
}

/// The value of the first pair whose name is `name`, if any: how `decode`
/// reads an attribute record.
pub open spec fn record_lookup(rec: Seq<(Seq<char>, Seq<char>)>, name: Seq<char>) -> Option<
    Seq<char>,
>
    decreases rec.len(),
{
    if rec.len() == 0 {
        None
    } else if rec[0].0 == name {
        Some(rec[0].1)
    } else {
        record_lookup(rec.drop_first(), name)
    }
}

/// Converts an entry into the attribute record the engine stores: a single
/// `path` pair.  Total: always succeeds.
pub fn db_entry_to_map(db_entry: &DBEntry) -> (r: Vec<(String, String)>)
    ensures
        r.deep_view() == entry_record(db_entry.path@),
{
    let mut out: Vec<(String, String)> = Vec::new();
    out.push(("path".to_owned(), db_entry.path.clone()));
    proof {
        assert(out.deep_view() =~= entry_record(db_entry.path@));
    }
    out
}

/// Reads the `path` attribute out of an attribute record; fails with
/// `PathNotPresent` when no pair carries it — the record was corrupted or
/// written by a different schema.
pub fn map_to_db_entry(map: &Vec<(String, String)>) -> (r: Result<DBEntry, FSError>)
    ensures
        match r {
            Ok(e) => record_lookup(map.deep_view(), "path"@) == Some(e.path@),
            Err(e) => e == FSError::PathNotPresent && record_lookup(map.deep_view(), "path"@)
                is None,
        },
{
    let pathkey: String = "path".to_owned();
    let n = map.len();
    let mut i: usize = 0;
    while i < n
        invariant
            n == map@.len(),
            i <= n,
            pathkey@ == "path"@,
            forall|j: int| 0 <= j < i ==> map.deep_view()[j].0 != "path"@,
        decreases n - i,
    {
        if map[i].0 == pathkey {
            let e = DBEntry { path: map[i].1.clone() };
            proof {
                assert(map.deep_view()[i as int].0 == "path"@);
                lemma_record_lookup_first(map.deep_view(), "path"@, i as int);
            }
            return Ok(e);
        }
        proof {
            assert(map.deep_view()[i as int].0 != "path"@);
        }
        i = i + 1;
    }
    proof {
        lemma_record_lookup_absent(map.deep_view(), "path"@);
    }
    Err(FSError::PathNotPresent)
}

/// `record_lookup` returns the value at the first position whose name
/// matches.
proof fn lemma_record_lookup_first(rec: Seq<(Seq<char>, Seq<char>)>, name: Seq<char>, i: int)
    requires
        0 <= i < rec.len(),
        rec[i].0 == name,
        forall|j: int| 0 <= j < i ==> rec[j].0 != name,
    ensures
        record_lookup(rec, name) == Some(rec[i].1),
    decreases i,
{
    if i > 0 {
        assert(forall|j: int| 0 <= j < i - 1 ==> rec.drop_first()[j].0 != name);
        lemma_record_lookup_first(rec.drop_first(), name, i - 1);
    }
}

/// `record_lookup` finds nothing when no pair carries the name.
proof fn lemma_record_lookup_absent(rec: Seq<(Seq<char>, Seq<char>)>, name: Seq<char>)
    requires
        forall|j: int| 0 <= j < rec.len() ==> rec[j].0 != name,
    ensures
        record_lookup(rec, name) is None,
    decreases rec.len(),
{
    if rec.len() > 0 {
        assert(forall|j: int| 0 <= j < rec.len() - 1 ==> rec.drop_first()[j].0 != name);
        lemma_record_lookup_absent(rec.drop_first(), name);
    }
}

/// A record of the shape the codec writes decodes to the path it stores.
pub proof fn lemma_entry_record_lookup(rec: Seq<(Seq<char>, Seq<char>)>)
    requires
        is_entry_record(rec),
    ensures
        record_lookup(rec, "path"@) == Some(record_path(rec)),
{
}

/// Codec round trip: decoding the record the codec writes for a path yields
/// exactly that path.
pub proof fn lemma_codec_round_trip(path: Seq<char>)
    ensures
        record_lookup(entry_record(path), "path"@) == Some(path),
{
}

} // verus!
