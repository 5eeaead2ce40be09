use fetcher::cache::RevisionCache;
use fetcher::json::{read_document, Document};
use fetcher::pin::{archive_url, fetch_hash, PinKey, SourcePin};

fn key(owner: &str, repo: &str, branch: &str) -> PinKey {
    PinKey { owner: owner.to_string(), repo: repo.to_string(), branch: branch.to_string() }
}

fn pin(revision: &str, hash: &str) -> SourcePin {
    SourcePin {
        url: format!("https://h/o/r/archive/{}.tar.gz", revision),
        owner: "o".to_string(),
        repo: "r".to_string(),
        revision: revision.to_string(),
        hash: hash.to_string(),
    }
}

#[test]
fn archive_url_is_built_from_url_and_revision() {
    assert_eq!(
        archive_url("https://github.com/o/r", "abc123"),
        "https://github.com/o/r/archive/abc123.tar.gz"
    );
    assert_eq!(archive_url("", ""), "/archive/.tar.gz");
}

#[test]
fn hash_is_read_from_the_pinner_output() {
    let output = read_document(&Some("{\"hash\":\"sha256-XYZ\",\"storePath\":\"/nix/store/x\"}".to_string()));
    assert_eq!(fetch_hash(&output), Some("sha256-XYZ".to_string()));
}

#[test]
fn output_without_a_hash_gives_none() {
    for text in ["{}", "{\"hash\": 1}", "{\"hash\": null}", "[\"sha256-XYZ\"]", "\"sha256-XYZ\"", "{\"Hash\":\"x\"}"] {
        let output = read_document(&Some(text.to_string()));
        assert_eq!(fetch_hash(&output), None, "{}", text);
    }
    assert_eq!(fetch_hash(&Document::Missing), None);
    assert_eq!(fetch_hash(&Document::Malformed), None);
    assert_eq!(fetch_hash(&read_document(&Some("not json".to_string()))), None);
}

#[test]
fn keys_are_compared_part_by_part() {
    assert!(key("o", "r", "b").same(&key("o", "r", "b")));
    assert!(!key("o", "r", "b").same(&key("x", "r", "b")));
    assert!(!key("o", "r", "b").same(&key("o", "x", "b")));
    assert!(!key("o", "r", "b").same(&key("o", "r", "x")));
}

#[test]
fn keys_with_the_separator_in_their_parts_differ() {
    assert!(!key("a-b", "c", "d").same(&key("a", "b-c", "d")));
    assert!(!key("a", "b", "c-d").same(&key("a", "b-c", "d")));
}

#[test]
fn cache_starts_empty() {
    let cache = RevisionCache::new();
    assert_eq!(cache.len(), 0);
    assert!(cache.get(&key("o", "r", "b")).is_none());
}

#[test]
fn stored_pin_is_found_under_its_key_only() {
    let mut cache = RevisionCache::new();
    cache.store(key("o", "r", "main"), pin("abc", "h1"));
    assert_eq!(cache.len(), 1);
    let found = cache.get(&key("o", "r", "main")).expect("stored");
    assert_eq!(found.revision, "abc");
    assert_eq!(found.hash, "h1");
    assert!(cache.get(&key("o", "r", "dev")).is_none());
}

#[test]
fn a_key_keeps_its_first_pin() {
    let mut cache = RevisionCache::new();
    cache.store(key("o", "r", "main"), pin("abc", "h1"));
    cache.store(key("o", "r", "main"), pin("def", "h2"));
    cache.store(key("o", "r", "dev"), pin("123", "h3"));
    assert_eq!(cache.len(), 2);
    assert_eq!(cache.get(&key("o", "r", "main")).expect("stored").revision, "abc");
    assert_eq!(cache.get(&key("o", "r", "main")).expect("stored").hash, "h1");
    assert_eq!(cache.get(&key("o", "r", "dev")).expect("stored").revision, "123");
}

#[test]
fn copies_of_keys_and_pins_are_equal_to_them() {
    let k = key("o", "r", "b");
    assert!(k.clone().same(&k));
    let p = pin("abc", "h");
    let q = p.clone();
    assert_eq!((q.url, q.owner, q.repo, q.revision, q.hash), (p.url, p.owner, p.repo, p.revision, p.hash));
}
