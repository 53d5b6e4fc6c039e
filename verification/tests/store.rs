use fs_db::{new, DBEntry, DBExtType};

#[test]
fn insert() {
    let in_db = DBEntry { path: "foo".to_string() };
    let mut db = new().ok().unwrap();
    let key_res = db.insert(in_db.clone(), 0).ok().unwrap();
    let out = db.get(&key_res);
    assert!(in_db == out.ok().unwrap());
}

#[test]
fn get_root_children() {
    let mut db = new().ok().unwrap();
    let in_db = DBEntry { path: "foo".to_string() };
    let key = db.insert(in_db.clone(), 0).ok().unwrap();
    let dir = db.make_dir().ok().unwrap();
    let key2 = db.insert(in_db, dir).ok().unwrap();
    let v = db.get_node_children(0).ok().unwrap();
    for i in v {
        assert!(i == &key);
    }
    let v2 = db.get_node_children(dir).ok().unwrap();
    for i in v2 {
        assert!(i == &key2);
    }
}

#[test]
fn iterate_root() {
    let mut db = new().ok().unwrap();
    let key = db
        .insert(DBExtType { path: "foo".to_string() }, 0)
        .ok()
        .unwrap();
    let mut iter = db.iter_children(&0).ok().unwrap();
    while let Some((key_t, data)) = iter.next() {
        assert!(key_t == key && data.path == "foo".to_string());
    }
}

#[test]
fn mass_insert() {
    let in_db = DBEntry { path: "foo".to_string() };
    let mut db = new().ok().unwrap();
    for _i in 1..10000 {
        let key_res = db.insert(in_db.clone(), 0);
        assert!(key_res.is_ok());
    }
}
