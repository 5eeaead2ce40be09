use fetcher::json::{read_document, Document, Json, Member};
use fetcher::repository::{filter_tag, read_blacklist, Repository};

fn repo(name: &str, url: Option<&str>, archived: bool) -> Repository {
    Repository {
        owner: Some("owner".to_string()),
        name: name.to_string(),
        html_url: url.map(|u| u.to_string()),
        default_branch: Some("main".to_string()),
        archived,
    }
}

fn names(repos: &[Repository]) -> Vec<&str> {
    repos.iter().map(|r| r.name.as_str()).collect()
}

#[test]
fn filter_keeps_what_is_neither_blacklisted_nor_archived() {
    let blacklist = vec!["https://h/b".to_string()];
    let tag = vec![
        repo("a", Some("https://h/a"), false),
        repo("b", Some("https://h/b"), false),
        repo("c", Some("https://h/c"), true),
        repo("d", Some("https://h/d"), false),
    ];
    let kept = filter_tag(&blacklist, &tag);
    assert_eq!(names(&kept), vec!["a", "d"]);
}

#[test]
fn filter_keeps_the_order() {
    let tag = vec![
        repo("z", Some("https://h/z"), false),
        repo("a", Some("https://h/a"), false),
        repo("m", Some("https://h/m"), false),
    ];
    let kept = filter_tag(&Vec::new(), &tag);
    assert_eq!(names(&kept), vec!["z", "a", "m"]);
}

#[test]
fn filter_drops_a_repository_that_is_both_blacklisted_and_archived() {
    let blacklist = vec!["https://h/a".to_string()];
    let tag = vec![repo("a", Some("https://h/a"), true)];
    assert!(filter_tag(&blacklist, &tag).is_empty());
}

#[test]
fn filter_drops_a_repository_without_url() {
    let tag = vec![repo("a", None, false), repo("b", Some("https://h/b"), false)];
    assert_eq!(names(&filter_tag(&Vec::new(), &tag)), vec!["b"]);
}

#[test]
fn filter_compares_whole_urls() {
    let blacklist = vec!["https://h/a".to_string()];
    let tag = vec![
        repo("prefix", Some("https://h/ab"), false),
        repo("case", Some("https://h/A"), false),
        repo("exact", Some("https://h/a"), false),
    ];
    assert_eq!(names(&filter_tag(&blacklist, &tag)), vec!["prefix", "case"]);
}

#[test]
fn filter_of_nothing_is_nothing() {
    assert!(filter_tag(&vec!["x".to_string()], &Vec::new()).is_empty());
}

#[test]
fn filter_keeps_every_field() {
    let tag = vec![Repository {
        owner: None,
        name: "n".to_string(),
        html_url: Some("u".to_string()),
        default_branch: None,
        archived: false,
    }];
    let kept = filter_tag(&Vec::new(), &tag);
    assert_eq!(kept.len(), 1);
    assert_eq!(kept[0].owner, None);
    assert_eq!(kept[0].name, "n");
    assert_eq!(kept[0].html_url.as_deref(), Some("u"));
    assert_eq!(kept[0].default_branch, None);
    assert!(!kept[0].archived);
}

#[test]
fn is_eligible_agrees_with_the_filter() {
    let blacklist = vec!["https://h/b".to_string()];
    assert!(repo("a", Some("https://h/a"), false).is_eligible(&blacklist));
    assert!(!repo("b", Some("https://h/b"), false).is_eligible(&blacklist));
    assert!(!repo("c", Some("https://h/c"), true).is_eligible(&blacklist));
    assert!(!repo("d", None, false).is_eligible(&blacklist));
}

#[test]
fn blacklist_is_read_from_its_document() {
    let document = read_document(&Some("{\"repos\": [\"https://h/a\", \"https://h/b\"]}".to_string()));
    assert_eq!(
        read_blacklist(&document),
        Some(vec!["https://h/a".to_string(), "https://h/b".to_string()])
    );
}

#[test]
fn empty_blacklist_is_read() {
    let document = read_document(&Some("{\"repos\": [], \"more\": 1}".to_string()));
    assert_eq!(read_blacklist(&document), Some(Vec::new()));
}

#[test]
fn blacklist_of_another_form_is_refused() {
    for text in ["[]", "{}", "{\"repos\": \"x\"}", "{\"repos\": [\"a\", 1]}", "{\"repos\": [[\"a\"]]}", "null"] {
        let document = read_document(&Some(text.to_string()));
        assert_eq!(read_blacklist(&document), None, "{}", text);
    }
    assert_eq!(read_blacklist(&Document::Missing), None);
    assert_eq!(read_blacklist(&Document::Malformed), None);
}

#[test]
fn blacklist_is_read_from_a_tree_written_by_hand() {
    let document = Document::Parsed(Json::Object(vec![Member {
        key: "repos".to_string(),
        value: Json::Array(vec![Json::Text("u".to_string())]),
    }]));
    assert_eq!(read_blacklist(&document), Some(vec!["u".to_string()]));
}
