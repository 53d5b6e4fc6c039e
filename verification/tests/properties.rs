use fs_db::{db_entry_to_map, map_to_db_entry, new, new_backed, DBEntry, FSError};

#[test]
fn round_trip_under_root() {
    let mut db = new().ok().unwrap();
    let k = db.insert(DBEntry { path: "foo".to_string() }, 0).ok().unwrap();
    let got = db.get(&k).ok().unwrap();
    assert_eq!(got.path, "foo".to_string());
}

#[test]
fn insert_missing_parent_is_key_not_found() {
    let mut db = new().ok().unwrap();
    let r = db.insert(DBEntry { path: "foo".to_string() }, 12345);
    assert!(matches!(r, Err(FSError::KeyNotFound)));
}

#[test]
fn insert_under_leaf_is_node_not_link() {
    let mut db = new().ok().unwrap();
    let k = db.insert(DBEntry { path: "foo".to_string() }, 0).ok().unwrap();
    let r = db.insert(DBEntry { path: "bar".to_string() }, k);
    assert!(matches!(r, Err(FSError::NodeNotLink)));
}

#[test]
fn get_on_container_is_node_not_data() {
    let mut db = new().ok().unwrap();
    let d = db.make_dir().ok().unwrap();
    assert!(matches!(db.get(&d), Err(FSError::NodeNotData)));
    assert!(matches!(db.get(&0), Err(FSError::NodeNotData)));
}

#[test]
fn children_of_leaf_is_node_not_link() {
    let mut db = new().ok().unwrap();
    let k = db.insert(DBEntry { path: "foo".to_string() }, 0).ok().unwrap();
    assert!(matches!(db.get_node_children(k), Err(FSError::NodeNotLink)));
}

#[test]
fn get_missing_key_is_key_not_found() {
    let db = new().ok().unwrap();
    assert!(matches!(db.get(&777), Err(FSError::KeyNotFound)));
    assert!(matches!(db.get_node_children(777), Err(FSError::KeyNotFound)));
}

#[test]
fn child_membership_exactly_once() {
    let mut db = new().ok().unwrap();
    let d = db.make_dir().ok().unwrap();
    let k = db.insert(DBEntry { path: "foo".to_string() }, d).ok().unwrap();
    let children = db.get_node_children(d).ok().unwrap();
    assert_eq!(children.len(), 1);
    assert_eq!(children[0], k);
}

#[test]
fn nested_containers_leave_root_unaffected() {
    let mut db = new().ok().unwrap();
    let root_before = db.get_node_children(0).ok().unwrap().clone();
    let d = db.make_dir().ok().unwrap();
    let k2 = db.insert(DBEntry { path: "foo".to_string() }, d).ok().unwrap();
    let under_d = db.get_node_children(d).ok().unwrap();
    assert_eq!(under_d, &vec![k2]);
    let root_after = db.get_node_children(0).ok().unwrap();
    assert_eq!(root_after, &root_before);
}

#[test]
fn bulk_insert_distinct_keys_all_under_root() {
    let mut db = new().ok().unwrap();
    let mut keys: Vec<u32> = Vec::new();
    for _i in 0..10000 {
        let k = db.insert(DBEntry { path: "foo".to_string() }, 0).ok().unwrap();
        keys.push(k);
    }
    let mut seen: std::collections::HashSet<u32> = std::collections::HashSet::new();
    for k in &keys {
        assert!(seen.insert(*k));
    }
    let children = db.get_node_children(0).ok().unwrap();
    assert_eq!(children, &keys);
}

#[test]
fn iteration_yields_single_inserted_pair() {
    let mut db = new().ok().unwrap();
    let k = db.insert(DBEntry { path: "foo".to_string() }, 0).ok().unwrap();
    let mut iter = db.iter_children(&0).ok().unwrap();
    let first = iter.next();
    assert!(first.is_some());
    let (key_t, data) = first.unwrap();
    assert_eq!(key_t, k);
    assert_eq!(data.path, "foo".to_string());
    assert!(iter.next().is_none());
}

#[test]
fn codec_encodes_single_path_pair() {
    let rec = db_entry_to_map(&DBEntry { path: "foo".to_string() });
    assert_eq!(rec, vec![("path".to_string(), "foo".to_string())]);
}

#[test]
fn codec_round_trip() {
    let rec = db_entry_to_map(&DBEntry { path: "some/where".to_string() });
    let back = map_to_db_entry(&rec).ok().unwrap();
    assert_eq!(back.path, "some/where".to_string());
}

#[test]
fn decode_without_path_is_path_not_present() {
    let empty: Vec<(String, String)> = Vec::new();
    assert!(matches!(map_to_db_entry(&empty), Err(FSError::PathNotPresent)));
    let other = vec![("name".to_string(), "foo".to_string())];
    assert!(matches!(map_to_db_entry(&other), Err(FSError::PathNotPresent)));
}

#[test]
fn decode_finds_path_among_other_attributes() {
    let rec = vec![
        ("name".to_string(), "x".to_string()),
        ("path".to_string(), "p".to_string()),
    ];
    assert_eq!(map_to_db_entry(&rec).ok().unwrap().path, "p".to_string());
}

#[test]
fn error_descriptions() {
    assert_eq!(FSError::KeyAllreadyPresent.to_string(), "KeyAllreadyPresent".to_string());
    assert_eq!(FSError::KeyNotFound.to_string(), "KeyNotFound".to_string());
    assert_eq!(FSError::NodeNotLink.to_string(), "NodeNotLink".to_string());
    assert_eq!(FSError::NodeNotData.to_string(), "NodeNotData".to_string());
    assert_eq!(FSError::PathNotPresent.to_string(), "PathNotPresent".to_string());
    assert_eq!(FSError::FileError.to_string(), "File Error".to_string());
    assert_eq!(
        FSError::SerializeError.to_string(),
        "Error when Serializing to String".to_string()
    );
}

#[test]
fn unbacked_store_produces_no_snapshot() {
    let mut db = new().ok().unwrap();
    assert!(db.take_snapshot().is_none());
    let _k = db.insert(DBEntry { path: "foo".to_string() }, 0).ok().unwrap();
    assert!(db.take_snapshot().is_none());
}

#[test]
fn backed_store_snapshots_parse_back() {
    let mut db = new_backed("backing_target.json".to_string()).ok().unwrap();
    let initial = db.take_snapshot();
    assert!(initial.is_some());
    let initial = initial.unwrap();
    assert!(!initial.is_empty());
    let parsed = gulkana::from_string::<u32, Vec<(String, String)>, u32>(initial.clone());
    assert!(parsed.is_ok());
    assert!(db.take_snapshot().is_none());

    let _k = db.insert(DBEntry { path: "foo".to_string() }, 0).ok().unwrap();
    let after = db.take_snapshot();
    assert!(after.is_some());
    let after = after.unwrap();
    assert!(!after.is_empty());
    assert!(after != initial);
    let parsed_after = gulkana::from_string::<u32, Vec<(String, String)>, u32>(after);
    assert!(parsed_after.is_ok());
}

#[test]
fn backed_make_dir_snapshots() {
    let mut db = new_backed("backing_target_dir.json".to_string()).ok().unwrap();
    let _ = db.take_snapshot();
    let _d = db.make_dir().ok().unwrap();
    assert!(db.take_snapshot().is_some());
}
