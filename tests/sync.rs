use blake2::{Blake2b512, Digest};
use bucket_sync::entry::LocalEntry;
use bucket_sync::hashing::{content_hash, hex_lower};
use bucket_sync::manifest::Manifest;
use bucket_sync::plan::{plan_sync, SyncError, SyncPlan};

fn digest_hex(data: &[u8]) -> String {
    Blake2b512::digest(data).iter().map(|x| format!("{x:02x}")).collect()
}

fn entry(path: &str, contents: &str) -> LocalEntry {
    LocalEntry::new(path.to_string(), contents.as_bytes().to_vec())
}

fn manifest_of(pairs: &[(&str, String)]) -> Manifest {
    let mut m = Manifest::new();
    for (p, h) in pairs {
        m.insert(p.to_string(), h.clone());
    }
    m
}

fn plan(existing: &Manifest, current: Vec<LocalEntry>) -> SyncPlan {
    match plan_sync(existing, current) {
        Ok(p) => p,
        Err(_) => panic!("unexpected duplicate path"),
    }
}

fn written_paths(p: &SyncPlan) -> Vec<String> {
    let mut v: Vec<String> = p.to_write.iter().map(|&i| p.entries[i].path.clone()).collect();
    v.sort();
    v
}

fn deleted_paths(p: &SyncPlan) -> Vec<String> {
    let mut v = p.to_delete.clone();
    v.sort();
    v
}

fn manifest_pairs(m: &Manifest) -> Vec<(String, String)> {
    let mut v: Vec<(String, String)> = m
        .paths()
        .into_iter()
        .map(|p| {
            let h = m.get(&p).unwrap().clone();
            (p, h)
        })
        .collect();
    v.sort();
    v
}

#[test]
fn hex_lower_writes_two_digits_per_byte() {
    assert_eq!(hex_lower(&vec![0x0a, 0xff, 0x10, 0x00]), "0aff1000");
    assert_ne!(hex_lower(&vec![0x01, 0x23]), hex_lower(&vec![0x12, 0x03]));
    assert_eq!(hex_lower(&vec![]), "");
    assert_eq!(hex_lower(&vec![0x3c]), "3c");
}

#[test]
fn content_hash_is_blake2b512_in_hex() {
    assert_eq!(content_hash(&b"hi".to_vec()), digest_hex(b"hi"));
    assert_eq!(content_hash(&vec![]), digest_hex(b""));
    assert_eq!(content_hash(&b"hi".to_vec()).len(), 128);
    assert_ne!(content_hash(&b"hi".to_vec()), hex_lower(&b"hi".to_vec()));
}

#[test]
fn content_hash_changes_with_one_byte() {
    assert_ne!(content_hash(&b"hello".to_vec()), content_hash(&b"hellp".to_vec()));
}

#[test]
fn entry_guesses_content_type() {
    assert_eq!(entry("site/a.txt", "hi").content_type, "text/plain");
    assert_eq!(entry("site/index.html", "").content_type, "text/html");
    assert_eq!(entry("site/blob.unknownext", "").content_type, "application/octet-stream");
    assert_eq!(entry("noextension", "").content_type, "application/octet-stream");
    assert_eq!(entry("a.txt", "hi").hash, digest_hex(b"hi"));
}

#[test]
fn manifest_insert_get_and_replace() {
    let mut m = Manifest::new();
    assert_eq!(m.len(), 0);
    assert!(m.get(&"a".to_string()).is_none());
    m.insert("a".to_string(), "1".to_string());
    m.insert("b".to_string(), "2".to_string());
    m.insert("a".to_string(), "3".to_string());
    assert_eq!(m.len(), 2);
    assert_eq!(m.get(&"a".to_string()).unwrap(), "3");
    assert_eq!(m.get(&"b".to_string()).unwrap(), "2");
    assert!(m.contains(&"b".to_string()));
    assert!(!m.contains(&"c".to_string()));
    let mut paths = m.paths();
    paths.sort();
    assert_eq!(paths, vec!["a".to_string(), "b".to_string()]);
}

#[test]
fn manifest_json_form() {
    assert_eq!(Manifest::new().to_json(), "{\"entries\":{}}");
    let m = manifest_of(&[("a.txt", "h1".to_string()), ("d/\"q\".txt", "h2".to_string())]);
    let json = m.to_json();
    assert_eq!(json, "{\"entries\":{\"a.txt\":\"h1\",\"d/\\\"q\\\".txt\":\"h2\"}}");
    let back: serde_json::Value = serde_json::from_str(&json).unwrap();
    assert_eq!(back["entries"]["d/\"q\".txt"], "h2");
    assert_eq!(back["entries"].as_object().unwrap().len(), 2);
}

#[test]
fn first_run_uploads_everything() {
    let p = plan(&Manifest::new(), vec![entry("a.txt", "hi"), entry("b.txt", "bye")]);
    assert_eq!(
        manifest_pairs(&p.manifest),
        vec![("a.txt".to_string(), digest_hex(b"hi")), ("b.txt".to_string(), digest_hex(b"bye"))]
    );
    assert_eq!(written_paths(&p), vec!["a.txt".to_string(), "b.txt".to_string()]);
    assert!(p.to_delete.is_empty());
}

#[test]
fn removed_file_is_deleted_and_nothing_uploaded() {
    let first = plan(&Manifest::new(), vec![entry("a.txt", "hi"), entry("b.txt", "bye")]);
    let second = plan(&first.manifest, vec![entry("a.txt", "hi")]);
    assert_eq!(manifest_pairs(&second.manifest), vec![("a.txt".to_string(), digest_hex(b"hi"))]);
    assert!(second.to_write.is_empty());
    assert_eq!(deleted_paths(&second), vec!["b.txt".to_string()]);
}

#[test]
fn second_run_without_changes_does_nothing() {
    let files = || vec![entry("x/1", "one"), entry("x/2", "two"), entry("y", "")];
    let first = plan(&Manifest::new(), files());
    assert_eq!(first.to_write.len(), 3);
    let second = plan(&first.manifest, files());
    assert!(second.to_write.is_empty());
    assert!(second.to_delete.is_empty());
    assert_eq!(manifest_pairs(&second.manifest), manifest_pairs(&first.manifest));
}

#[test]
fn one_changed_byte_uploads_that_file_alone() {
    let first = plan(&Manifest::new(), vec![entry("a", "hello"), entry("b", "world")]);
    let second = plan(&first.manifest, vec![entry("a", "hellp"), entry("b", "world")]);
    assert_eq!(written_paths(&second), vec!["a".to_string()]);
    assert!(second.to_delete.is_empty());
    assert_eq!(second.manifest.get(&"a".to_string()).unwrap(), &digest_hex(b"hellp"));
}

#[test]
fn manifest_lists_exactly_the_scanned_files() {
    let existing = manifest_of(&[("old", "h".to_string()), ("a", digest_hex(b"1"))]);
    let p = plan(&existing, vec![entry("a", "1"), entry("c", "3")]);
    assert_eq!(
        manifest_pairs(&p.manifest),
        vec![("a".to_string(), digest_hex(b"1")), ("c".to_string(), digest_hex(b"3"))]
    );
    assert_eq!(written_paths(&p), vec!["c".to_string()]);
    assert_eq!(deleted_paths(&p), vec!["old".to_string()]);
}

#[test]
fn stale_hash_is_uploaded_again() {
    let existing = manifest_of(&[("a", "stale".to_string())]);
    let p = plan(&existing, vec![entry("a", "1")]);
    assert_eq!(written_paths(&p), vec!["a".to_string()]);
    assert!(p.to_delete.is_empty());
}

#[test]
fn empty_scan_deletes_everything() {
    let existing = manifest_of(&[("a", "1".to_string()), ("b", "2".to_string())]);
    let p = plan(&existing, vec![]);
    assert_eq!(p.manifest.len(), 0);
    assert!(p.to_write.is_empty());
    assert_eq!(deleted_paths(&p), vec!["a".to_string(), "b".to_string()]);
}

#[test]
fn duplicate_path_is_refused() {
    match plan_sync(&Manifest::new(), vec![entry("a", "1"), entry("b", "2"), entry("a", "3")]) {
        Err(SyncError::DuplicatePath(p)) => assert_eq!(p, "a"),
        Ok(_) => panic!("duplicate accepted"),
    }
}
