use nimbus::error::VaultError;
use nimbus::object::{Metadata, Object, ObjectId};
use nimbus::vault::{child_named, path_lookup_names, sends_payload, sync_step, SyncStep};

fn names(v: &[&str]) -> Vec<String> {
    v.iter().map(|s| s.to_string()).collect()
}

fn sized(n: u64) -> Metadata {
    let mut m = Metadata::new();
    m.set_size(n);
    m
}

#[test]
fn a_path_is_looked_up_component_by_component() {
    assert_eq!(path_lookup_names("photos/2024/summer.jpg"), names(&["photos", "2024", "summer.jpg"]));
    assert_eq!(path_lookup_names(""), Vec::<String>::new());
    assert_eq!(path_lookup_names("/"), Vec::<String>::new());
    assert_eq!(path_lookup_names("/a//b/./c/"), names(&["a", "b", "c"]));
    assert_eq!(path_lookup_names("./a"), names(&[".", "a"]));
    assert_eq!(path_lookup_names("/./a"), names(&["a"]));
    assert_eq!(path_lookup_names("a/../b"), names(&["a", "..", "b"]));
}

#[test]
fn the_first_child_with_the_name_is_picked() {
    let children = vec![
        Object::leaf("a".to_string(), ObjectId::from_str("id-a"), Metadata::new()),
        Object::branch("b".to_string(), ObjectId::from_str("id-b1"), Metadata::new(), Vec::new()),
        Object::leaf("b".to_string(), ObjectId::from_str("id-b2"), Metadata::new()),
    ];
    assert_eq!(child_named(&children, "b"), Ok(ObjectId::from_str("id-b1")));
    assert_eq!(
        child_named(&children, "c"),
        Err(VaultError::NotFound("c".to_string()))
    );
}

#[test]
fn sync_writes_what_is_missing_or_diverged_and_descends_into_branches() {
    let remote_leaf = Object::leaf("f".to_string(), ObjectId::from_str("f"), sized(3));
    let same = Object::leaf("f".to_string(), ObjectId::from_str("f"), sized(3));
    let older = Object::leaf("f".to_string(), ObjectId::from_str("f"), sized(4));
    let dir = Object::branch("d".to_string(), ObjectId::from_str("d"), Metadata::new(), Vec::new());

    assert_eq!(
        sync_step(Err(VaultError::NotFound("f".to_string())), &remote_leaf),
        Ok(SyncStep { put: true, descend: false })
    );
    assert_eq!(sync_step(Ok(same), &remote_leaf), Ok(SyncStep { put: false, descend: false }));
    assert_eq!(sync_step(Ok(older), &remote_leaf), Ok(SyncStep { put: true, descend: false }));
    let dir_copy = Object::branch("d".to_string(), ObjectId::from_str("d"), Metadata::new(), Vec::new());
    assert_eq!(sync_step(Ok(dir_copy), &dir), Ok(SyncStep { put: false, descend: true }));
    assert_eq!(
        sync_step(Err(VaultError::Io("denied".to_string())), &dir),
        Err(VaultError::Io("denied".to_string()))
    );
    assert!(sends_payload(&remote_leaf));
    assert!(!sends_payload(&dir));
}

use nimbus::object::Timestamp;
use nimbus::origin_fs::OriginFileSystem;

#[test]
fn a_directory_entry_becomes_a_branch_and_a_file_a_leaf() {
    let t = Timestamp { secs: 1_700_000_000, nanos: 5 };
    let dir = OriginFileSystem::object_of(&ObjectId::from_str("docs"), Some("docs".to_string()), 4096, Some(t), true)
        .unwrap();
    assert!(dir.is_branch());
    assert_eq!(dir.get_name(), "docs");
    assert_eq!(dir.get_id(), ObjectId::from_str("docs"));
    let meta = dir.get_meta().unwrap();
    assert_eq!(meta.size, Some(4096));
    assert_eq!(meta.modified, Some(t));
    assert_eq!(meta.content_type, None);

    let file = OriginFileSystem::object_of(&ObjectId::from_str("docs/a.txt"), Some("a.txt".to_string()), 3, Some(t), false)
        .unwrap();
    assert!(!file.is_branch());
    assert_eq!(file.get_name(), "a.txt");

    // the root directory's path has no last component: the id names it
    let root = OriginFileSystem::object_of(&ObjectId::from_str(""), None, 0, Some(t), true).unwrap();
    assert_eq!(root.get_name(), "");

    assert!(matches!(
        OriginFileSystem::object_of(&ObjectId::from_str("x"), None, 0, None, false),
        Err(VaultError::OriginError(m)) if m == "Failed to get modified time"
    ));
}

#[test]
fn placing_an_object_gives_it_the_id_of_its_entry() {
    let origin = OriginFileSystem::new("/srv/data".to_string());
    let mut file = Object::leaf("notes.txt".to_string(), ObjectId::from_str("tmp"), Metadata::new());
    assert_eq!(origin.place(&mut file, &ObjectId::from_str("")), Ok("/srv/data/notes.txt".to_string()));
    assert_eq!(file.get_id(), ObjectId::from_str("notes.txt"));

    let mut dir = Object::branch("b".to_string(), ObjectId::from_str("tmp"), Metadata::new(), Vec::new());
    assert_eq!(origin.place(&mut dir, &ObjectId::from_str("/a/")), Ok("/srv/data/a/b".to_string()));
    assert_eq!(dir.get_id(), ObjectId::from_str("a/b"));

    let mut root = Object::root();
    assert_eq!(
        origin.place(&mut root, &ObjectId::from_str("a")),
        Err(VaultError::OriginError("Cannot put root object".to_string()))
    );
}

// --- the object cache ---

use nimbus::vault::ObjectCache;

fn leaf_named(name: &str) -> Object {
    Object::leaf(name.to_string(), ObjectId::from_str(name), Metadata::new())
}

#[test]
fn a_cached_object_is_served_back() {
    let mut cache = ObjectCache::new();
    assert!(cache.lookup(&ObjectId::from_str("a.txt")).is_none());
    cache.store(ObjectId::from_str("a.txt"), leaf_named("a.txt"));
    let got = cache.lookup(&ObjectId::from_str("a.txt")).expect("cached");
    assert_eq!(got.get_name(), "a.txt");
    assert_eq!(got.get_id().as_str(), "a.txt");
}

#[test]
fn storing_again_replaces_and_forgetting_evicts() {
    let mut cache = ObjectCache::new();
    cache.store(ObjectId::from_str("x"), leaf_named("first"));
    cache.store(ObjectId::from_str("x"), leaf_named("second"));
    assert_eq!(cache.lookup(&ObjectId::from_str("x")).unwrap().get_name(), "second");
    cache.store(ObjectId::from_str("y"), leaf_named("y"));
    cache.forget(&ObjectId::from_str("x"));
    assert!(cache.lookup(&ObjectId::from_str("x")).is_none());
    assert_eq!(cache.lookup(&ObjectId::from_str("y")).unwrap().get_name(), "y");
    cache.forget(&ObjectId::from_str("never"));
    assert!(cache.lookup(&ObjectId::from_str("y")).is_some());
}

#[test]
fn a_listing_caches_the_children_and_records_them_on_the_listed_directory() {
    let mut cache = ObjectCache::new();
    let dir = Object::branch("docs".to_string(), ObjectId::from_str("docs"), Metadata::new(), Vec::new());
    cache.store(ObjectId::from_str("docs"), dir);
    let children = vec![leaf_named("docs/a"), leaf_named("docs/b")];
    cache.record_listing(&ObjectId::from_str("docs"), &children);
    assert_eq!(cache.lookup(&ObjectId::from_str("docs/a")).unwrap().get_name(), "docs/a");
    assert_eq!(cache.lookup(&ObjectId::from_str("docs/b")).unwrap().get_name(), "docs/b");
    match cache.lookup(&ObjectId::from_str("docs")).unwrap() {
        Object::Branch { children: Some(ids), .. } => {
            let ids: Vec<&str> = ids.iter().map(|i| i.as_str()).collect();
            assert_eq!(ids, vec!["docs/a", "docs/b"]);
        }
        _ => panic!("the listed directory should know its children"),
    }
}

#[test]
fn a_listing_of_an_uncached_directory_only_caches_the_children() {
    let mut cache = ObjectCache::new();
    cache.record_listing(&ObjectId::from_str("/"), &vec![leaf_named("a")]);
    assert!(cache.lookup(&ObjectId::from_str("/")).is_none());
    assert!(cache.lookup(&ObjectId::from_str("a")).is_some());
}

#[test]
fn a_duplicate_keeps_every_field() {
    let mut meta = Metadata::new();
    meta.set_size(42);
    let dir = Object::branch("d".to_string(), ObjectId::from_str("d-id"), meta, vec![ObjectId::from_str("c")]);
    let copy = dir.duplicate();
    match copy {
        Object::Branch { name, id, meta, children } => {
            assert_eq!(name, "d");
            assert_eq!(id.as_str(), "d-id");
            assert_eq!(meta.size, Some(42));
            assert_eq!(children.unwrap().len(), 1);
        }
        _ => panic!("a copy keeps the variant"),
    }
    assert!(leaf_named("f").with_children(Vec::new()).is_none());
}

#[test]
fn a_listing_leaves_other_cached_objects_alone() {
    let mut cache = ObjectCache::new();
    cache.store(ObjectId::from_str("elsewhere"), leaf_named("elsewhere"));
    cache.record_listing(&ObjectId::from_str("docs"), &vec![leaf_named("docs/a")]);
    assert_eq!(cache.lookup(&ObjectId::from_str("elsewhere")).unwrap().get_name(), "elsewhere");
}
