//! The run itself: it is told what came of the work it asked for, decides,
//! and says what work it needs next. It does no outside work of its own.

use vstd::prelude::*;
use crate::cache::RevisionCache;
use crate::laws::lemma_next_well_formed;
use crate::manifest::{resolve, Declaration};
use crate::model::{initial, key_of, package_skip, pin_of, Model, Phase};
use crate::output::{CategoryOutput, OutputMap, PackageOutput};
use crate::pin::{archive_url, archive_url_of, fetch_hash, PinKey, SourcePin};
use crate::protocol::{Action, CategorySpec, Event, Fatal, Input};
use crate::repository::{filter_tag, read_blacklist, Repository, RepositoryView};
use crate::skip::{report_unlisted, Cause, Skip, Subject};
use crate::text::copy_optional;

verus! {

/// The owner of a repository, if it has one.
pub fn get_owner(repo: &Repository) -> (owner: Option<String>)
    ensures
        owner.deep_view() == repo@.owner,
{
    copy_optional(&repo.owner)
}

/// The key under which the pin of a declaration of a repository is resolved;
/// `None` for a repository without an owner.
pub fn pin_key(repo: &Repository, declaration: &Declaration) -> (key: Option<PinKey>)
    ensures
        key.is_some() == repo@.owner.is_some(),
        key matches Some(k) ==> k@ == key_of(repo@, declaration@),
{
    match get_owner(repo) {
        Some(owner) => Some(
            PinKey { owner, repo: repo.name.clone(), branch: declaration.branch.clone() },
        ),
        None => None,
    }
}

/// The address of the archive of `revision` of a repository; `None` for a
/// repository without a canonical URL.
pub fn fetch_url(repo: &Repository, revision: &String) -> (url: Option<String>)
    ensures
        url.is_some() == repo@.html_url.is_some(),
        url matches Some(u) ==> u@ == archive_url_of(repo@.html_url.unwrap(), revision@),
{
    match &repo.html_url {
        Some(html_url) => Some(archive_url(html_url.as_str(), revision.as_str())),
        None => None,
    }
}

/// A run of the pipeline.
pub struct Pipeline {
    categories: Vec<CategorySpec>,
    blacklist: Vec<String>,
    phase: Phase,
    category: usize,
    page: Option<String>,
    found: Vec<Repository>,
    seen: Ghost<Seq<RepositoryView>>,
    repos: Vec<Repository>,
    repo: usize,
    declarations: Vec<Declaration>,
    declaration: usize,
    revision: String,
    cache: RevisionCache,
    packages: OutputMap,
    document: Vec<CategoryOutput>,
    log: Vec<Skip>,
}

impl View for Pipeline {
    type V = Model;

    closed spec fn view(&self) -> Model {
        Model {
            categories: self.categories.deep_view(),
            blacklist: self.blacklist.deep_view(),
            phase: self.phase,
            category: self.category as int,
            page: self.page.deep_view(),
            found: self.found.deep_view(),
            seen: self.seen@,
            repos: self.repos.deep_view(),
            repo: self.repo as int,
            declarations: self.declarations.deep_view(),
            declaration: self.declaration as int,
            revision: self.revision@,
            cache: self.cache@,
            packages: self.packages@,
            document: self.document.deep_view(),
            log: self.log.deep_view(),
        }
    }
}

impl Pipeline {
    /// The collections of the run are in order.
    spec fn inv(&self) -> bool {
        &&& self.cache.wf()
        &&& self.packages.wf()
        &&& forall|c: int|
            0 <= c < self.document.len() ==> (#[trigger] self.document[c]).packages.wf()
    }

    /// The run is in a state that a run can be in.
    pub closed spec fn wf(&self) -> bool {
        self.inv() && self@.well_formed()
    }

    /// A run over `categories`, about to ask for the blacklist.
    pub fn new(categories: Vec<CategorySpec>) -> (run: Pipeline)
        ensures
            run.wf(),
            run@ == initial(categories.deep_view()),
    {
        let run = Pipeline {
            categories,
            blacklist: Vec::new(),
            phase: Phase::Blacklist,
            category: 0,
            page: None,
            found: Vec::new(),
            seen: Ghost(Seq::empty()),
            repos: Vec::new(),
            repo: 0,
            declarations: Vec::new(),
            declaration: 0,
            revision: String::new(),
            cache: RevisionCache::new(),
            packages: OutputMap::new(),
            document: Vec::new(),
            log: Vec::new(),
        };
        assert(run@.blacklist =~= Seq::empty());
        assert(run@.found =~= Seq::empty());
        assert(run@.repos =~= Seq::empty());
        assert(run@.declarations =~= Seq::empty());
        assert(run@.document =~= Seq::empty());
        assert(run@.log =~= Seq::empty());
        run
    }

    /// Adds a record to the log.
    fn note(&mut self, skip: Skip)
        requires
            old(self).inv(),
        ensures
            final(self).inv(),
            final(self)@ == old(self)@.noting(skip@),
    {
        self.log.push(skip);
        assert(self.log.deep_view() =~= old(self).log.deep_view().push(skip@));
    }

    /// Begins the work on the category `at`, or ends the run.
    fn enter_category(&mut self, at: usize)
        requires
            old(self).inv(),
        ensures
            final(self).inv(),
            final(self)@ == old(self)@.enter_category(at as int),
    {
        self.category = at;
        if at >= self.categories.len() {
            self.phase = Phase::Done;
        } else {
            self.phase = Phase::Search;
            self.page = None;
            self.found = Vec::new();
            assert(self.found.deep_view() =~= Seq::empty());
        }
    }

    /// Goes to the first repository at or after `at` that has an owner, or
    /// finishes the category.
    fn enter_repository(&mut self, at: usize)
        requires
            old(self).inv(),
            old(self).category < old(self).categories.len(),
            at <= old(self).repos.len(),
        ensures
            final(self).inv(),
            final(self)@ == old(self)@.enter_repository(at as int),
    {
        let mut i = at;
        while i < self.repos.len()
            invariant
                self.inv(),
                self.category < self.categories.len(),
                i <= self.repos.len(),
                self@.enter_repository(i as int) == old(self)@.enter_repository(at as int),
            decreases self.repos.len() - i,
        {
            assert(self@.repos[i as int] == self.repos[i as int]@);
            if self.repos[i].owner.is_some() {
                self.phase = Phase::Manifest;
                self.repo = i;
                return ;
            }
            let skip = Skip {
                cause: Cause::MissingOwner,
                subject: Subject::Repository(self.repos[i].clone()),
            };
            self.note(skip);
            i += 1;
        }
        let label = self.categories[self.category].label.clone();
        let packages = self.packages.take();
        let ghost before = self.document.deep_view();
        let finished = CategoryOutput { label, packages };
        self.document.push(finished);
        assert(self.document.deep_view() =~= before.push(finished@));
        let next = self.category + 1;
        self.enter_category(next);
    }

    /// Gives every declaration from `at` on whose pin is in the cache its
    /// record, and stops at the first whose pin is not there.
    fn enter_declaration(&mut self, at: usize)
        requires
            old(self).inv(),
            old(self).category < old(self).categories.len(),
            old(self).repo < old(self).repos.len(),
            old(self).repos[old(self).repo as int].owner.is_some(),
            at <= old(self).declarations.len(),
        ensures
            final(self).inv(),
            final(self)@ == old(self)@.enter_declaration(at as int),
    {
        let mut i = at;
        while i < self.declarations.len()
            invariant
                self.inv(),
                self.category < self.categories.len(),
                self.repo < self.repos.len(),
                self.repos[self.repo as int].owner.is_some(),
                i <= self.declarations.len(),
                self@.enter_declaration(i as int) == old(self)@.enter_declaration(at as int),
            decreases self.declarations.len() - i,
        {
            assert(self@.repos[self.repo as int] == self.repos[self.repo as int]@);
            assert(self@.declarations[i as int] == self.declarations[i as int]@);
            let key = pin_key(&self.repos[self.repo], &self.declarations[i]).unwrap();
            match self.cache.get(&key) {
                Some(pin) => {
                    let record = PackageOutput {
                        name: self.declarations[i].name.clone(),
                        main: copy_optional(&self.declarations[i].main),
                        source: pin.clone(),
                    };
                    self.packages.insert(record);
                },
                None => {
                    self.phase = Phase::Revision;
                    self.declaration = i;
                    return ;
                },
            }
            i += 1;
        }
        let next = self.repo + 1;
        self.enter_repository(next);
    }

    /// Reports and filters what the search found, and enters the first
    /// repository.
    fn close_search(&mut self)
        requires
            old(self).inv(),
            old(self).category < old(self).categories.len(),
        ensures
            final(self).inv(),
            final(self)@ == old(self)@.close_search(),
    {
        report_unlisted(&self.found, &mut self.log);
        self.repos = filter_tag(&self.blacklist, &self.found);
        self.enter_repository(0);
    }

    /// A run that is in order is in a state that the laws speak of.
    pub proof fn lemma_well_formed(&self)
        requires
            self.wf(),
        ensures
            self@.well_formed(),
    {
    }

    /// Where the run stands.
    pub fn phase(&self) -> (phase: Phase)
        ensures
            phase == self@.phase,
    {
        self.phase
    }

    /// The records of the categories that are finished, in the order of the
    /// categories. Once the run is done these are the records of all
    /// categories: the output of the run.
    pub fn document(&self) -> (document: &Vec<CategoryOutput>)
        requires
            self.wf(),
        ensures
            document.deep_view() == self@.document,
            forall|c: int| 0 <= c < document.len() ==> (#[trigger] document[c]).packages.wf(),
    {
        &self.document
    }

    /// What the run has passed over so far, in the order in which it did.
    pub fn log(&self) -> (log: &Vec<Skip>)
        ensures
            log.deep_view() == self@.log,
    {
        &self.log
    }

    /// The pins that the run has resolved so far.
    pub fn cache(&self) -> (cache: &RevisionCache)
        requires
            self.wf(),
        ensures
            cache.wf(),
            cache@ == self@.cache,
    {
        &self.cache
    }

    /// The work that the run waits for.
    pub fn pending(&self) -> (action: Action)
        requires
            self.wf(),
        ensures
            action@ == self@.pending(),
    {
        match self.phase {
            Phase::Blacklist => Action::FetchBlacklist,
            Phase::Search => Action::Search {
                topic: self.categories[self.category].topic.clone(),
                page: copy_optional(&self.page),
            },
            Phase::Manifest => Action::FetchManifest {
                owner: get_owner(&self.repos[self.repo]).unwrap(),
                repo: self.repos[self.repo].name.clone(),
            },
            Phase::Revision => Action::FetchTip {
                owner: get_owner(&self.repos[self.repo]).unwrap(),
                repo: self.repos[self.repo].name.clone(),
                branch: self.declarations[self.declaration].branch.clone(),
            },
            Phase::Hash => Action::Prefetch {
                url: fetch_url(&self.repos[self.repo], &self.revision).unwrap(),
            },
            Phase::Done => Action::Finish,
            Phase::Failed(fatal) => Action::Abort(fatal),
        }
    }

    /// Takes in what came of the work that the run waited for, and goes on to
    /// the next point at which it needs outside work.
    pub fn apply(&mut self, input: Input)
        requires
            old(self).wf(),
        ensures
            final(self).wf(),
            final(self)@ == old(self)@.next(input@),
    {
        proof {
            lemma_next_well_formed(self@, input@);
        }
        match (self.phase, input) {
            (Phase::Blacklist, Input::Blacklist(document)) => {
                match read_blacklist(&document) {
                    Some(blacklist) => {
                        self.blacklist = blacklist;
                        self.enter_category(0);
                    },
                    None => {
                        self.phase = Phase::Failed(Fatal::Blacklist);
                    },
                }
            },
            (Phase::Search, Input::Page { repos, next }) => {
                let mut repos = repos;
                let ghost more = repos.deep_view();
                let ghost found = self.found.deep_view();
                self.found.append(&mut repos);
                self.seen = Ghost(self.seen@ + more);
                assert(self.found.deep_view() =~= found + more);
                match next {
                    Some(token) => {
                        self.page = Some(token);
                    },
                    None => {
                        self.close_search();
                    },
                }
            },
            (Phase::Search, Input::SearchFailed) => {
                if self.page.is_none() {
                    self.phase = Phase::Failed(Fatal::Search);
                } else {
                    let skip = Skip {
                        cause: Cause::SearchInterrupted,
                        subject: Subject::Topic(self.categories[self.category].topic.clone()),
                    };
                    self.note(skip);
                    self.close_search();
                }
            },
            (Phase::Manifest, Input::Manifest(document)) => {
                let kind = self.categories[self.category].kind;
                match resolve(kind, &self.repos[self.repo].default_branch, &document) {
                    Ok(declarations) => {
                        self.declarations = declarations;
                        self.enter_declaration(0);
                    },
                    Err(cause) => {
                        assert(self.repo < self.repos.len());
                        let skip = Skip {
                            cause,
                            subject: Subject::Repository(self.repos[self.repo].clone()),
                        };
                        self.note(skip);
                        let next = self.repo + 1;
                        self.enter_repository(next);
                    },
                }
            },
            (Phase::Revision, Input::Tip(tip)) => {
                match tip {
                    Some(revision) => {
                        self.revision = revision;
                        self.phase = Phase::Hash;
                    },
                    None => {
                        self.skip_declaration(Cause::BranchUnavailable);
                    },
                }
            },
            (Phase::Hash, Input::Pinned(output)) => {
                match fetch_hash(&output) {
                    Some(hash) => {
                        let repo = &self.repos[self.repo];
                        let key = pin_key(repo, &self.declarations[self.declaration]).unwrap();
                        let pin = SourcePin {
                            url: fetch_url(repo, &self.revision).unwrap(),
                            owner: get_owner(repo).unwrap(),
                            repo: repo.name.clone(),
                            revision: self.revision.clone(),
                            hash,
                        };
                        self.cache.store(key, pin);
                        let at = self.declaration;
                        self.enter_declaration(at);
                    },
                    None => {
                        self.skip_declaration(Cause::PinFailed);
                    },
                }
            },
            _ => {},
        }
    }

    /// Passes over the declaration in work and goes on to the next.
    fn skip_declaration(&mut self, cause: Cause)
        requires
            old(self).inv(),
            old(self).category < old(self).categories.len(),
            old(self).repo < old(self).repos.len(),
            old(self).repos[old(self).repo as int].owner.is_some(),
            old(self).declaration < old(self).declarations.len(),
        ensures
            final(self).inv(),
            final(self)@ == old(self)@.noting(
                package_skip(
                    cause,
                    old(self)@.repos[old(self)@.repo],
                    old(self)@.declarations[old(self)@.declaration],
                ),
            ).enter_declaration(old(self)@.declaration + 1),
    {
        let declaration = &self.declarations[self.declaration];
        let skip = Skip {
            cause,
            subject: Subject::Package {
                key: pin_key(&self.repos[self.repo], declaration).unwrap(),
                name: declaration.name.clone(),
            },
        };
        self.note(skip);
        let next = self.declaration + 1;
        self.enter_declaration(next);
    }

    /// Reads what the event carries and takes it in.
    pub fn step(&mut self, event: Event)
        requires
            old(self).wf(),
        ensures
            final(self).wf(),
            final(self)@ == old(self)@.next(event.reading()),
    {
        let input = event.read();
        self.apply(input);
    }
}

} // verus!
