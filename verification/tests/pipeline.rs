use fetcher::json::{Document, Json, Member};
use fetcher::manifest::Kind;
use fetcher::model::Phase;
use fetcher::pipeline::{fetch_url, get_owner, pin_key, Pipeline};
use fetcher::manifest::Declaration;
use fetcher::protocol::{Action, CategorySpec, Event, Fatal, Input};
use fetcher::repository::Repository;
use fetcher::skip::{Cause, Subject};

fn category(label: &str, topic: &str, kind: Kind) -> CategorySpec {
    CategorySpec { label: label.to_string(), topic: topic.to_string(), kind }
}

fn extensions() -> Vec<CategorySpec> {
    vec![category("extensions", "spicetify-extensions", Kind::Extension)]
}

fn both() -> Vec<CategorySpec> {
    vec![
        category("extensions", "spicetify-extensions", Kind::Extension),
        category("apps", "spicetify-apps", Kind::App),
    ]
}

fn repository(owner: &str, name: &str) -> Repository {
    Repository {
        owner: Some(owner.to_string()),
        name: name.to_string(),
        html_url: Some(format!("https://example.org/{}/{}", owner, name)),
        default_branch: Some("main".to_string()),
        archived: false,
    }
}

fn text(s: &str) -> Option<String> {
    Some(s.to_string())
}

fn started(categories: Vec<CategorySpec>, blacklist: &str) -> Pipeline {
    let mut run = Pipeline::new(categories);
    run.step(Event::Blacklist(text(blacklist)));
    run
}

fn expect_search(run: &Pipeline, topic: &str, page: Option<&str>) {
    match run.pending() {
        Action::Search { topic: t, page: p } => {
            assert_eq!(t, topic);
            assert_eq!(p.as_deref(), page);
        }
        other => panic!("unexpected {:?}", other),
    }
}

fn expect_manifest(run: &Pipeline, owner: &str, repo: &str) {
    match run.pending() {
        Action::FetchManifest { owner: o, repo: r } => {
            assert_eq!(o, owner);
            assert_eq!(r, repo);
        }
        other => panic!("unexpected {:?}", other),
    }
}

fn expect_tip(run: &Pipeline, owner: &str, repo: &str, branch: &str) {
    match run.pending() {
        Action::FetchTip { owner: o, repo: r, branch: b } => {
            assert_eq!(o, owner);
            assert_eq!(r, repo);
            assert_eq!(b, branch);
        }
        other => panic!("unexpected {:?}", other),
    }
}

fn expect_prefetch(run: &Pipeline, url: &str) {
    match run.pending() {
        Action::Prefetch { url: u } => assert_eq!(u, url),
        other => panic!("unexpected {:?}", other),
    }
}

fn hash(h: &str) -> Event {
    Event::Pinned(Some(format!("{{\"hash\":\"{}\"}}", h)))
}

fn names(run: &Pipeline, at: usize) -> Vec<String> {
    let mut names: Vec<String> =
        run.document()[at].packages.records().iter().map(|r| r.name.clone()).collect();
    names.sort();
    names
}

#[test]
fn end_to_end_single_extension() {
    let mut run = Pipeline::new(extensions());
    assert!(matches!(run.pending(), Action::FetchBlacklist));
    assert_eq!(run.phase(), Phase::Blacklist);
    run.step(Event::Blacklist(text("{\"repos\": []}")));
    expect_search(&run, "spicetify-extensions", None);
    run.step(Event::Page { repos: vec![repository("alice", "tools")], next: None });
    expect_manifest(&run, "alice", "tools");
    run.step(Event::Manifest(text("{\"name\":\"foo\",\"main\":\"index.js\"}")));
    expect_tip(&run, "alice", "tools", "main");
    run.step(Event::Tip(text("abc123")));
    expect_prefetch(&run, "https://example.org/alice/tools/archive/abc123.tar.gz");
    run.step(hash("sha256-XYZ"));
    assert!(matches!(run.pending(), Action::Finish));
    assert_eq!(run.phase(), Phase::Done);
    let document = run.document();
    assert_eq!(document.len(), 1);
    assert_eq!(document[0].label, "extensions");
    assert_eq!(document[0].packages.records().len(), 1);
    let foo = document[0].packages.get("foo").expect("foo is there");
    assert_eq!(foo.name, "foo");
    assert_eq!(foo.main.as_deref(), Some("index.js"));
    assert_eq!(foo.source.owner, "alice");
    assert_eq!(foo.source.repo, "tools");
    assert_eq!(foo.source.revision, "abc123");
    assert_eq!(foo.source.hash, "sha256-XYZ");
    assert_eq!(foo.source.url, "https://example.org/alice/tools/archive/abc123.tar.gz");
    assert!(run.log().is_empty());
}

#[test]
fn failure_of_one_repository_leaves_the_next_alone() {
    let mut run = started(extensions(), "{\"repos\": []}");
    run.step(Event::Page {
        repos: vec![repository("alice", "broken"), repository("bob", "fine")],
        next: None,
    });
    expect_manifest(&run, "alice", "broken");
    run.step(Event::Manifest(None));
    expect_manifest(&run, "bob", "fine");
    run.step(Event::Manifest(text("{\"name\":\"ok\",\"main\":\"ok.js\"}")));
    expect_tip(&run, "bob", "fine", "main");
    run.step(Event::Tip(text("r1")));
    run.step(hash("h1"));
    assert!(matches!(run.pending(), Action::Finish));
    assert_eq!(run.document().len(), 1);
    assert_eq!(names(&run, 0), vec!["ok".to_string()]);
    assert_eq!(run.document()[0].packages.get("ok").expect("ok").source.repo, "fine");
    let log = run.log();
    assert_eq!(log.len(), 1);
    assert_eq!(log[0].cause, Cause::ManifestUnavailable);
    assert!(matches!(&log[0].subject, Subject::Repository(r) if r.name == "broken"));
    assert_eq!(log[0].message(), "failed to get the manifest: https://example.org/alice/broken");
}

#[test]
fn blacklisted_repository_contributes_nothing() {
    let mut run = started(extensions(), "{\"repos\": [\"https://example.org/mallory/bad\"]}");
    run.step(Event::Page {
        repos: vec![repository("mallory", "bad"), repository("alice", "good")],
        next: None,
    });
    expect_manifest(&run, "alice", "good");
    run.step(Event::Manifest(text("{\"name\":\"g\",\"main\":\"g.js\"}")));
    run.step(Event::Tip(text("r")));
    run.step(hash("h"));
    assert!(matches!(run.pending(), Action::Finish));
    assert_eq!(names(&run, 0), vec!["g".to_string()]);
    assert!(run.log().is_empty());
}

#[test]
fn archived_repository_contributes_nothing() {
    let mut archived = repository("old", "dusty");
    archived.archived = true;
    let mut run = started(extensions(), "{\"repos\": []}");
    run.step(Event::Page { repos: vec![archived], next: None });
    assert!(matches!(run.pending(), Action::Finish));
    assert_eq!(run.document().len(), 1);
    assert!(run.document()[0].packages.records().is_empty());
    assert!(run.log().is_empty());
}

#[test]
fn all_pages_of_a_search_are_gathered() {
    let mut run = started(extensions(), "{\"repos\": []}");
    expect_search(&run, "spicetify-extensions", None);
    run.step(Event::Page { repos: vec![repository("a", "one")], next: text("page-2") });
    expect_search(&run, "spicetify-extensions", Some("page-2"));
    run.step(Event::Page { repos: vec![repository("b", "two")], next: text("page-3") });
    expect_search(&run, "spicetify-extensions", Some("page-3"));
    run.step(Event::Page { repos: vec![repository("c", "three")], next: None });
    for (owner, repo, name) in [("a", "one", "alpha"), ("b", "two", "beta"), ("c", "three", "gamma")] {
        expect_manifest(&run, owner, repo);
        run.step(Event::Manifest(Some(format!("{{\"name\":\"{}\",\"main\":\"m.js\"}}", name))));
        expect_tip(&run, owner, repo, "main");
        run.step(Event::Tip(text("rev")));
        run.step(hash("h"));
    }
    assert!(matches!(run.pending(), Action::Finish));
    assert_eq!(names(&run, 0), vec!["alpha".to_string(), "beta".to_string(), "gamma".to_string()]);
}

#[test]
fn filter_waits_for_the_last_page() {
    let mut run = started(extensions(), "{\"repos\": []}");
    run.step(Event::Page { repos: vec![repository("a", "one")], next: text("more") });
    assert_eq!(run.phase(), Phase::Search);
    run.step(Event::Page { repos: Vec::new(), next: None });
    expect_manifest(&run, "a", "one");
}

#[test]
fn one_key_is_resolved_once() {
    let mut run = started(extensions(), "{\"repos\": []}");
    run.step(Event::Page { repos: vec![repository("alice", "tools")], next: None });
    run.step(Event::Manifest(text(
        "[{\"name\":\"a\",\"main\":\"a.js\"},{\"name\":\"b\",\"main\":\"b.js\"},{\"name\":\"c\",\"main\":\"c.js\",\"branch\":\"main\"}]",
    )));
    expect_tip(&run, "alice", "tools", "main");
    run.step(Event::Tip(text("abc")));
    expect_prefetch(&run, "https://example.org/alice/tools/archive/abc.tar.gz");
    run.step(hash("h-abc"));
    assert!(matches!(run.pending(), Action::Finish));
    assert_eq!(run.cache().len(), 1);
    assert_eq!(names(&run, 0), vec!["a".to_string(), "b".to_string(), "c".to_string()]);
    for name in ["a", "b", "c"] {
        let record = run.document()[0].packages.get(name).expect("there");
        assert_eq!(record.source.revision, "abc");
        assert_eq!(record.source.hash, "h-abc");
        assert_eq!(record.source.url, "https://example.org/alice/tools/archive/abc.tar.gz");
    }
}

#[test]
fn another_branch_is_another_key() {
    let mut run = started(extensions(), "{\"repos\": []}");
    run.step(Event::Page { repos: vec![repository("alice", "tools")], next: None });
    run.step(Event::Manifest(text(
        "[{\"name\":\"a\",\"main\":\"a.js\"},{\"name\":\"b\",\"main\":\"b.js\",\"branch\":\"dev\"}]",
    )));
    expect_tip(&run, "alice", "tools", "main");
    run.step(Event::Tip(text("r-main")));
    run.step(hash("h-main"));
    expect_tip(&run, "alice", "tools", "dev");
    run.step(Event::Tip(text("r-dev")));
    expect_prefetch(&run, "https://example.org/alice/tools/archive/r-dev.tar.gz");
    run.step(hash("h-dev"));
    assert!(matches!(run.pending(), Action::Finish));
    assert_eq!(run.cache().len(), 2);
    assert_eq!(run.document()[0].packages.get("a").expect("a").source.hash, "h-main");
    assert_eq!(run.document()[0].packages.get("b").expect("b").source.hash, "h-dev");
}

#[test]
fn pins_are_shared_between_categories() {
    let mut run = started(both(), "{\"repos\": []}");
    run.step(Event::Page { repos: vec![repository("alice", "tools")], next: None });
    run.step(Event::Manifest(text("{\"name\":\"ext\",\"main\":\"e.js\"}")));
    run.step(Event::Tip(text("abc")));
    run.step(hash("h"));
    expect_search(&run, "spicetify-apps", None);
    run.step(Event::Page { repos: vec![repository("alice", "tools")], next: None });
    expect_manifest(&run, "alice", "tools");
    run.step(Event::Manifest(text("{\"name\":\"app\"}")));
    assert!(matches!(run.pending(), Action::Finish));
    assert_eq!(run.cache().len(), 1);
    let document = run.document();
    assert_eq!(document.len(), 2);
    assert_eq!(document[0].label, "extensions");
    assert_eq!(document[1].label, "apps");
    assert_eq!(names(&run, 0), vec!["ext".to_string()]);
    assert_eq!(names(&run, 1), vec!["app".to_string()]);
    let app = document[1].packages.get("app").expect("app");
    assert_eq!(app.main, None);
    assert_eq!(app.source.revision, "abc");
    assert_eq!(app.source.hash, "h");
}

#[test]
fn categories_keep_their_names_apart() {
    let mut run = started(both(), "{\"repos\": []}");
    run.step(Event::Page { repos: vec![repository("a", "x")], next: None });
    run.step(Event::Manifest(text("{\"name\":\"same\",\"main\":\"e.js\"}")));
    run.step(Event::Tip(text("r1")));
    run.step(hash("h1"));
    run.step(Event::Page { repos: vec![repository("b", "y")], next: None });
    run.step(Event::Manifest(text("{\"name\":\"same\"}")));
    run.step(Event::Tip(text("r2")));
    run.step(hash("h2"));
    assert!(matches!(run.pending(), Action::Finish));
    assert_eq!(run.document()[0].packages.get("same").expect("ext").source.repo, "x");
    assert_eq!(run.document()[1].packages.get("same").expect("app").source.repo, "y");
}

#[test]
fn later_declaration_of_a_name_wins() {
    let mut run = started(extensions(), "{\"repos\": []}");
    run.step(Event::Page { repos: vec![repository("a", "first"), repository("b", "second")], next: None });
    run.step(Event::Manifest(text("{\"name\":\"pkg\",\"main\":\"a.js\"}")));
    run.step(Event::Tip(text("ra")));
    run.step(hash("ha"));
    expect_manifest(&run, "b", "second");
    run.step(Event::Manifest(text("{\"name\":\"pkg\",\"main\":\"b.js\"}")));
    run.step(Event::Tip(text("rb")));
    run.step(hash("hb"));
    assert!(matches!(run.pending(), Action::Finish));
    assert_eq!(run.document()[0].packages.records().len(), 1);
    let pkg = run.document()[0].packages.get("pkg").expect("pkg");
    assert_eq!(pkg.main.as_deref(), Some("b.js"));
    assert_eq!(pkg.source.owner, "b");
    assert_eq!(pkg.source.repo, "second");
    assert_eq!(pkg.source.revision, "rb");
    assert_eq!(pkg.source.hash, "hb");
}

#[test]
fn later_declaration_wins_within_one_manifest() {
    let mut run = started(extensions(), "{\"repos\": []}");
    run.step(Event::Page { repos: vec![repository("a", "r")], next: None });
    run.step(Event::Manifest(text(
        "[{\"name\":\"pkg\",\"main\":\"old.js\"},{\"name\":\"pkg\",\"main\":\"new.js\"}]",
    )));
    run.step(Event::Tip(text("rev")));
    run.step(hash("h"));
    assert!(matches!(run.pending(), Action::Finish));
    assert_eq!(run.document()[0].packages.records().len(), 1);
    assert_eq!(run.document()[0].packages.get("pkg").expect("pkg").main.as_deref(), Some("new.js"));
}

#[test]
fn missing_blacklist_is_fatal() {
    let mut run = Pipeline::new(extensions());
    run.step(Event::Blacklist(None));
    assert!(matches!(run.pending(), Action::Abort(Fatal::Blacklist)));
    assert_eq!(run.phase(), Phase::Failed(Fatal::Blacklist));
    assert!(run.document().is_empty());
}

#[test]
fn malformed_blacklist_is_fatal() {
    for bad in ["not json", "[]", "{\"repos\": 3}", "{\"repos\": [1]}"] {
        let mut run = Pipeline::new(extensions());
        run.step(Event::Blacklist(text(bad)));
        assert!(matches!(run.pending(), Action::Abort(Fatal::Blacklist)), "{}", bad);
    }
}

#[test]
fn failed_run_stays_failed() {
    let mut run = Pipeline::new(extensions());
    run.step(Event::Blacklist(None));
    run.step(Event::Blacklist(text("{\"repos\": []}")));
    run.step(Event::Page { repos: vec![repository("a", "b")], next: None });
    assert!(matches!(run.pending(), Action::Abort(Fatal::Blacklist)));
}

#[test]
fn search_that_fails_on_its_first_page_is_fatal() {
    let mut run = started(extensions(), "{\"repos\": []}");
    run.step(Event::SearchFailed);
    assert!(matches!(run.pending(), Action::Abort(Fatal::Search)));
    assert!(run.document().is_empty());
}

#[test]
fn search_that_fails_later_goes_on_with_what_it_has() {
    let mut run = started(extensions(), "{\"repos\": []}");
    run.step(Event::Page { repos: vec![repository("a", "one")], next: text("page-2") });
    run.step(Event::SearchFailed);
    expect_manifest(&run, "a", "one");
    let log = run.log();
    assert_eq!(log.len(), 1);
    assert_eq!(log[0].cause, Cause::SearchInterrupted);
    assert!(matches!(&log[0].subject, Subject::Topic(t) if t == "spicetify-extensions"));
}

#[test]
fn run_without_categories_is_done_after_the_blacklist() {
    let run = started(Vec::new(), "{\"repos\": []}");
    assert!(matches!(run.pending(), Action::Finish));
    assert!(run.document().is_empty());
}

#[test]
fn search_without_results_gives_an_empty_category() {
    let mut run = started(both(), "{\"repos\": []}");
    run.step(Event::Page { repos: Vec::new(), next: None });
    expect_search(&run, "spicetify-apps", None);
    run.step(Event::Page { repos: Vec::new(), next: None });
    assert!(matches!(run.pending(), Action::Finish));
    assert_eq!(run.document().len(), 2);
    assert!(run.document()[0].packages.records().is_empty());
    assert!(run.document()[1].packages.records().is_empty());
}

#[test]
fn repository_without_url_is_reported_and_left_out() {
    let mut nameless = repository("a", "nourl");
    nameless.html_url = None;
    let mut run = started(extensions(), "{\"repos\": []}");
    run.step(Event::Page { repos: vec![nameless, repository("b", "ok")], next: None });
    expect_manifest(&run, "b", "ok");
    let log = run.log();
    assert_eq!(log.len(), 1);
    assert_eq!(log[0].cause, Cause::MissingUrl);
    assert_eq!(log[0].message(), "repository has no URL: a/nourl");
}

#[test]
fn repository_without_owner_is_reported_and_left_out() {
    let mut orphan = repository("a", "orphan");
    orphan.owner = None;
    let mut run = started(extensions(), "{\"repos\": []}");
    run.step(Event::Page { repos: vec![orphan, repository("b", "ok")], next: None });
    expect_manifest(&run, "b", "ok");
    let log = run.log();
    assert_eq!(log.len(), 1);
    assert_eq!(log[0].cause, Cause::MissingOwner);
    assert_eq!(log[0].message(), "repository has no owner: https://example.org/a/orphan");
}

#[test]
fn malformed_manifest_skips_the_repository() {
    let mut run = started(extensions(), "{\"repos\": []}");
    run.step(Event::Page { repos: vec![repository("a", "bad"), repository("b", "ok")], next: None });
    run.step(Event::Manifest(text("{\"name\": \"no main\"}")));
    expect_manifest(&run, "b", "ok");
    assert_eq!(run.log().len(), 1);
    assert_eq!(run.log()[0].cause, Cause::ManifestMalformed);
    run.step(Event::Manifest(text("this is not json")));
    assert!(matches!(run.pending(), Action::Finish));
    assert_eq!(run.log().len(), 2);
    assert_eq!(run.log()[1].cause, Cause::ManifestMalformed);
    assert!(run.document()[0].packages.records().is_empty());
}

#[test]
fn missing_default_branch_skips_the_repository() {
    let mut branchless = repository("a", "r");
    branchless.default_branch = None;
    let mut run = started(extensions(), "{\"repos\": []}");
    run.step(Event::Page { repos: vec![branchless], next: None });
    run.step(Event::Manifest(text(
        "[{\"name\":\"x\",\"main\":\"x.js\",\"branch\":\"dev\"},{\"name\":\"y\",\"main\":\"y.js\"}]",
    )));
    assert!(matches!(run.pending(), Action::Finish));
    assert!(run.document()[0].packages.records().is_empty());
    assert_eq!(run.log().len(), 1);
    assert_eq!(run.log()[0].cause, Cause::MissingDefaultBranch);
}

#[test]
fn named_branches_need_no_default_branch() {
    let mut branchless = repository("a", "r");
    branchless.default_branch = None;
    let mut run = started(extensions(), "{\"repos\": []}");
    run.step(Event::Page { repos: vec![branchless], next: None });
    run.step(Event::Manifest(text("{\"name\":\"x\",\"main\":\"x.js\",\"branch\":\"dev\"}")));
    expect_tip(&run, "a", "r", "dev");
}

#[test]
fn missing_branch_skips_the_declaration_only() {
    let mut run = started(extensions(), "{\"repos\": []}");
    run.step(Event::Page { repos: vec![repository("a", "r")], next: None });
    run.step(Event::Manifest(text(
        "[{\"name\":\"x\",\"main\":\"x.js\",\"branch\":\"gone\"},{\"name\":\"y\",\"main\":\"y.js\"}]",
    )));
    expect_tip(&run, "a", "r", "gone");
    run.step(Event::Tip(None));
    expect_tip(&run, "a", "r", "main");
    run.step(Event::Tip(text("rev")));
    run.step(hash("h"));
    assert!(matches!(run.pending(), Action::Finish));
    assert_eq!(names(&run, 0), vec!["y".to_string()]);
    let log = run.log();
    assert_eq!(log.len(), 1);
    assert_eq!(log[0].cause, Cause::BranchUnavailable);
    assert_eq!(log[0].message(), "failed to get latest commit: a/r branch gone package x");
}

#[test]
fn failed_pin_skips_the_declaration_and_is_tried_again_for_the_next() {
    let mut run = started(extensions(), "{\"repos\": []}");
    run.step(Event::Page { repos: vec![repository("a", "r")], next: None });
    run.step(Event::Manifest(text(
        "[{\"name\":\"x\",\"main\":\"x.js\"},{\"name\":\"y\",\"main\":\"y.js\"}]",
    )));
    run.step(Event::Tip(text("rev")));
    run.step(Event::Pinned(None));
    expect_tip(&run, "a", "r", "main");
    assert_eq!(run.cache().len(), 0);
    run.step(Event::Tip(text("rev")));
    run.step(hash("h"));
    assert!(matches!(run.pending(), Action::Finish));
    assert_eq!(names(&run, 0), vec!["y".to_string()]);
    assert_eq!(run.log().len(), 1);
    assert_eq!(run.log()[0].cause, Cause::PinFailed);
    assert!(matches!(&run.log()[0].subject, Subject::Package { key, name } if name == "x" && key.branch == "main"));
}

#[test]
fn pinner_output_without_hash_is_a_failed_pin() {
    for output in ["", "{}", "{\"hash\": 5}", "error: unable to download"] {
        let mut run = started(extensions(), "{\"repos\": []}");
        run.step(Event::Page { repos: vec![repository("a", "r")], next: None });
        run.step(Event::Manifest(text("{\"name\":\"x\",\"main\":\"x.js\"}")));
        run.step(Event::Tip(text("rev")));
        run.step(Event::Pinned(text(output)));
        assert!(matches!(run.pending(), Action::Finish), "{}", output);
        assert!(run.document()[0].packages.records().is_empty());
        assert_eq!(run.log().len(), 1);
        assert_eq!(run.log()[0].cause, Cause::PinFailed);
    }
}

#[test]
fn event_that_was_not_asked_for_changes_nothing() {
    let mut run = started(extensions(), "{\"repos\": []}");
    run.step(Event::Tip(text("rev")));
    run.step(Event::Manifest(text("{\"name\":\"x\",\"main\":\"x.js\"}")));
    run.step(hash("h"));
    run.step(Event::Blacklist(text("{\"repos\": [\"https://example.org/a/r\"]}")));
    expect_search(&run, "spicetify-extensions", None);
    run.step(Event::Page { repos: vec![repository("a", "r")], next: None });
    expect_manifest(&run, "a", "r");
    run.step(Event::Page { repos: vec![repository("b", "s")], next: None });
    run.step(Event::SearchFailed);
    expect_manifest(&run, "a", "r");
    assert!(run.log().is_empty());
}

#[test]
fn done_run_stays_done() {
    let mut run = started(extensions(), "{\"repos\": []}");
    run.step(Event::Page { repos: Vec::new(), next: None });
    assert_eq!(run.phase(), Phase::Done);
    run.step(Event::Page { repos: vec![repository("a", "r")], next: None });
    run.step(Event::Manifest(text("{\"name\":\"x\",\"main\":\"x.js\"}")));
    assert_eq!(run.phase(), Phase::Done);
    assert_eq!(run.document().len(), 1);
    assert!(run.document()[0].packages.records().is_empty());
}

#[test]
fn apply_takes_documents_that_are_read_already() {
    let mut run = Pipeline::new(extensions());
    run.apply(Input::Blacklist(Document::Parsed(Json::Object(vec![Member {
        key: "repos".to_string(),
        value: Json::Array(vec![Json::Text("https://example.org/m/bad".to_string())]),
    }]))));
    run.apply(Input::Page { repos: vec![repository("m", "bad"), repository("a", "r")], next: None });
    expect_manifest(&run, "a", "r");
    run.apply(Input::Manifest(Document::Parsed(Json::Object(vec![
        Member { key: "name".to_string(), value: Json::Text("x".to_string()) },
        Member { key: "main".to_string(), value: Json::Text("x.js".to_string()) },
    ]))));
    run.apply(Input::Tip(Some("rev".to_string())));
    run.apply(Input::Pinned(Document::Parsed(Json::Object(vec![Member {
        key: "hash".to_string(),
        value: Json::Text("h".to_string()),
    }]))));
    assert!(matches!(run.pending(), Action::Finish));
    assert_eq!(run.document()[0].packages.get("x").expect("x").source.hash, "h");
}

#[test]
fn read_turns_text_into_documents() {
    assert!(matches!(Event::Blacklist(None).read(), Input::Blacklist(Document::Missing)));
    assert!(matches!(Event::Manifest(text("{")).read(), Input::Manifest(Document::Malformed)));
    assert!(matches!(Event::Pinned(text("[]")).read(), Input::Pinned(Document::Parsed(Json::Array(v))) if v.is_empty()));
    assert!(matches!(Event::Tip(text("r")).read(), Input::Tip(Some(r)) if r == "r"));
    assert!(matches!(Event::SearchFailed.read(), Input::SearchFailed));
    assert!(matches!(
        Event::Page { repos: vec![repository("a", "r")], next: text("t") }.read(),
        Input::Page { repos, next: Some(t) } if repos.len() == 1 && t == "t"
    ));
}

#[test]
fn helpers_of_a_repository() {
    let repo = repository("alice", "tools");
    assert_eq!(get_owner(&repo).as_deref(), Some("alice"));
    assert_eq!(
        fetch_url(&repo, &"abc".to_string()).as_deref(),
        Some("https://example.org/alice/tools/archive/abc.tar.gz")
    );
    let declaration = Declaration { name: "n".to_string(), main: None, branch: "dev".to_string() };
    let key = pin_key(&repo, &declaration).expect("has an owner");
    assert_eq!((key.owner.as_str(), key.repo.as_str(), key.branch.as_str()), ("alice", "tools", "dev"));
    let mut orphan = repository("alice", "tools");
    orphan.owner = None;
    orphan.html_url = None;
    assert_eq!(get_owner(&orphan), None);
    assert_eq!(fetch_url(&orphan, &"abc".to_string()), None);
    assert!(pin_key(&orphan, &declaration).is_none());
}

#[test]
fn repository_reported_both_archived_and_not_counts_where_it_is_not() {
    let mut archived = repository("a", "r");
    archived.archived = true;
    let mut run = started(extensions(), "{\"repos\": []}");
    run.step(Event::Page { repos: vec![archived, repository("a", "r")], next: None });
    expect_manifest(&run, "a", "r");
    run.step(Event::Manifest(text("{\"name\":\"x\",\"main\":\"x.js\"}")));
    run.step(Event::Tip(text("rev")));
    run.step(hash("h"));
    assert!(matches!(run.pending(), Action::Finish));
    assert_eq!(names(&run, 0), vec!["x".to_string()]);
}
