//! The run as a state machine over mathematical values: its states, which
//! work each state waits for, and the state that each input leads to.

use vstd::prelude::*;
use crate::manifest::{declarations_of, DeclarationView};
use crate::output::{output_of, CategoryOutputView, PackageOutputView};
use crate::pin::{archive_url_of, hash_of, PinKeyView, SourcePinView};
use crate::protocol::{ActionView, CategoryView, Fatal, InputView};
use crate::repository::{blacklist_of, eligible, survivors, RepositoryView};
use crate::skip::{repository_skip, unlisted, Cause, SkipView, SubjectView};

verus! {

/// Where a run stands.
#[derive(Clone, Copy, Debug, PartialEq, Eq, Structural)]
pub enum Phase {
    /// Waiting for the blacklist.
    Blacklist,
    /// Waiting for a page of the search for the category in work.
    Search,
    /// Waiting for the manifest file of the repository in work.
    Manifest,
    /// Waiting for the revision at the tip of the branch of the declaration
    /// in work.
    Revision,
    /// Waiting for the content hash of the archive of that revision.
    Hash,
    /// The output is complete.
    Done,
    /// The run was given up.
    Failed(Fatal),
}

/// The state of a run.
pub struct Model {
    /// The categories, in the order in which they are worked through.
    pub categories: Seq<CategoryView>,
    /// The URLs that the blacklist excludes.
    pub blacklist: Seq<Seq<char>>,
    pub phase: Phase,
    /// The index of the category in work.
    pub category: int,
    /// The token of the page that is waited for; `None` for a first page.
    pub page: Option<Seq<char>>,
    /// What the search for the category in work has found so far.
    pub found: Seq<RepositoryView>,
    /// Every repository that any search of the run has reported.
    pub seen: Seq<RepositoryView>,
    /// The repositories of the category in work that passed the filter.
    pub repos: Seq<RepositoryView>,
    /// The index of the repository in work.
    pub repo: int,
    /// The declarations of the repository in work.
    pub declarations: Seq<DeclarationView>,
    /// The index of the declaration in work.
    pub declaration: int,
    /// The revision whose content hash is waited for.
    pub revision: Seq<char>,
    /// The pins resolved so far.
    pub cache: Map<PinKeyView, SourcePinView>,
    /// The records of the category in work.
    pub packages: Map<Seq<char>, PackageOutputView>,
    /// The records of the categories that are finished.
    pub document: Seq<CategoryOutputView>,
    /// What was passed over so far.
    pub log: Seq<SkipView>,
}

/// The state in which a run begins.
pub open spec fn initial(categories: Seq<CategoryView>) -> Model {
    Model {
        categories,
        blacklist: Seq::empty(),
        phase: Phase::Blacklist,
        category: 0,
        page: None,
        found: Seq::empty(),
        seen: Seq::empty(),
        repos: Seq::empty(),
        repo: 0,
        declarations: Seq::empty(),
        declaration: 0,
        revision: Seq::empty(),
        cache: Map::empty(),
        packages: Map::empty(),
        document: Seq::empty(),
        log: Seq::empty(),
    }
}

/// The key under which the pin of a declaration of a repository is resolved.
/// It is meant for a repository that has an owner.
pub open spec fn key_of(repo: RepositoryView, declaration: DeclarationView) -> PinKeyView {
    PinKeyView { owner: repo.owner.unwrap(), repo: repo.name, branch: declaration.branch }
}

/// The pin of `revision` of a repository, whose archive has the content hash
/// `hash`. It is meant for a repository that has an owner and a canonical
/// URL.
pub open spec fn pin_of(
    repo: RepositoryView,
    revision: Seq<char>,
    hash: Seq<char>,
) -> SourcePinView {
    SourcePinView {
        url: archive_url_of(repo.html_url.unwrap(), revision),
        owner: repo.owner.unwrap(),
        repo: repo.name,
        revision,
        hash,
    }
}

/// The record for a package that is passed over.
pub open spec fn package_skip(
    cause: Cause,
    repo: RepositoryView,
    declaration: DeclarationView,
) -> SkipView {
    SkipView {
        cause,
        subject: SubjectView::Package { key: key_of(repo, declaration), name: declaration.name },
    }
}

/// The pin is one of the repository: it carries the repository's owner and
/// name, and its address is that of an archive of the repository.
pub open spec fn pin_from(repo: RepositoryView, pin: SourcePinView) -> bool {
    &&& repo.owner == Some(pin.owner)
    &&& repo.name == pin.repo
    &&& repo.html_url matches Some(url) && pin.url == archive_url_of(url, pin.revision)
}

/// The pin is one of a repository that a search reported and that passes the
/// filter.
pub open spec fn vouched(
    blacklist: Seq<Seq<char>>,
    seen: Seq<RepositoryView>,
    pin: SourcePinView,
) -> bool {
    exists|i: int|
        0 <= i < seen.len() && eligible(blacklist, #[trigger] seen[i]) && pin_from(seen[i], pin)
}

/// Each record stands under its own name and has a vouched pin.
pub open spec fn records_sound(
    blacklist: Seq<Seq<char>>,
    seen: Seq<RepositoryView>,
    packages: Map<Seq<char>, PackageOutputView>,
) -> bool {
    forall|name: Seq<char>| #[trigger]
        packages.contains_key(name) ==> packages[name].name == name && vouched(
            blacklist,
            seen,
            packages[name].source,
        )
}

impl Model {
    /// What holds of the state wherever the run stands: the finished
    /// categories are the first ones, in order and under their labels; the
    /// repositories in work passed the filter; every repository in work or
    /// found was reported by a search; every pin and every record is vouched.
    pub open spec fn sound(self) -> bool {
        &&& 0 <= self.category <= self.categories.len()
        &&& self.document.len() == self.category
        &&& forall|c: int|
            0 <= c < self.document.len() ==> (#[trigger] self.document[c]).label
                == self.categories[c].label
        &&& forall|c: int|
            0 <= c < self.document.len() ==> records_sound(
                self.blacklist,
                self.seen,
                (#[trigger] self.document[c]).packages,
            )
        &&& records_sound(self.blacklist, self.seen, self.packages)
        &&& forall|key: PinKeyView| #[trigger]
            self.cache.contains_key(key) ==> self.cache[key].owner == key.owner
                && self.cache[key].repo == key.repo && vouched(
                self.blacklist,
                self.seen,
                self.cache[key],
            )
        &&& forall|i: int|
            0 <= i < self.repos.len() ==> eligible(self.blacklist, #[trigger] self.repos[i])
                && self.seen.contains(self.repos[i])
        &&& forall|i: int|
            0 <= i < self.found.len() ==> self.seen.contains(#[trigger] self.found[i])
    }

    /// What holds of the state because of where the run stands: the category,
    /// the repository and the declaration in work are there, the repository
    /// has an owner, and no pin is asked for that the cache holds.
    pub open spec fn poised(self) -> bool {
        match self.phase {
            Phase::Blacklist => self == initial(self.categories),
            Phase::Search => self.category < self.categories.len(),
            Phase::Manifest => {
                &&& self.category < self.categories.len()
                &&& 0 <= self.repo < self.repos.len()
                &&& self.repos[self.repo].owner.is_some()
            },
            Phase::Revision | Phase::Hash => {
                &&& self.category < self.categories.len()
                &&& 0 <= self.repo < self.repos.len()
                &&& self.repos[self.repo].owner.is_some()
                &&& 0 <= self.declaration < self.declarations.len()
                &&& !self.cache.contains_key(
                    key_of(self.repos[self.repo], self.declarations[self.declaration]),
                )
            },
            Phase::Done => self.category == self.categories.len(),
            Phase::Failed(_) => true,
        }
    }

    /// Everything that this state has put down is still there in `later`:
    /// the pins, the records of the finished categories, the log, and the
    /// repositories seen.
    pub open spec fn carried_into(self, later: Model) -> bool {
        &&& self.cache.submap_of(later.cache)
        &&& self.document.is_prefix_of(later.document)
        &&& self.log.is_prefix_of(later.log)
        &&& self.seen.is_prefix_of(later.seen)
    }

    /// The states that a run can be in.
    pub open spec fn well_formed(self) -> bool {
        self.sound() && self.poised()
    }

    /// The state with one more record in its log.
    pub open spec fn noting(self, skip: SkipView) -> Model {
        Model { log: self.log.push(skip), ..self }
    }

    /// The state after the search for the category in work reported `more`.
    pub open spec fn seeing(self, more: Seq<RepositoryView>) -> Model {
        Model { found: self.found + more, seen: self.seen + more, ..self }
    }

    /// Begins the work on the category `at`, or ends the run where no
    /// category is left.
    pub open spec fn enter_category(self, at: int) -> Model {
        if at >= self.categories.len() {
            Model { phase: Phase::Done, category: at, ..self }
        } else {
            Model { phase: Phase::Search, category: at, page: None, found: Seq::empty(), ..self }
        }
    }

    /// Goes to the first repository at or after `at` whose manifest can be
    /// asked for. A repository without an owner is passed over. Where no
    /// repository is left the category is finished: its records are put down
    /// under its label and the next category begins.
    pub open spec fn enter_repository(self, at: int) -> Model
        decreases self.repos.len() - at,
    {
        if at < 0 || at >= self.repos.len() {
            let finished = CategoryOutputView {
                label: self.categories[self.category].label,
                packages: self.packages,
            };
            Model {
                document: self.document.push(finished),
                packages: Map::empty(),
                ..self
            }.enter_category(self.category + 1)
        } else if self.repos[at].owner.is_none() {
            self.noting(repository_skip(Cause::MissingOwner, self.repos[at])).enter_repository(
                at + 1,
            )
        } else {
            Model { phase: Phase::Manifest, repo: at, ..self }
        }
    }

    /// The state after the declaration `at`, whose pin the cache holds, got
    /// its record: the record stands under the declaration's name and takes
    /// the place of one that stood there.
    pub open spec fn recording(self, at: int) -> Model {
        let declaration = self.declarations[at];
        let pin = self.cache[key_of(self.repos[self.repo], declaration)];
        Model {
            packages: self.packages.insert(declaration.name, output_of(declaration, pin)),
            ..self
        }
    }

    /// Goes to the first declaration at or after `at` whose pin is not in the
    /// cache. A declaration whose pin is there gets its record at once, under
    /// its name. Where no declaration is left the next repository is entered.
    pub open spec fn enter_declaration(self, at: int) -> Model
        decreases self.declarations.len() - at,
    {
        if at < 0 || at >= self.declarations.len() {
            self.enter_repository(self.repo + 1)
        } else {
            if self.cache.contains_key(key_of(self.repos[self.repo], self.declarations[at])) {
                self.recording(at).enter_declaration(at + 1)
            } else {
                Model { phase: Phase::Revision, declaration: at, ..self }
            }
        }
    }

    /// Ends the search for the category in work: the repositories without a
    /// canonical URL are reported, the others are filtered, and the first
    /// repository is entered.
    pub open spec fn close_search(self) -> Model {
        Model {
            repos: survivors(self.blacklist, self.found),
            log: self.log + unlisted(self.found),
            ..self
        }.enter_repository(0)
    }

    /// The work that the state waits for.
    pub open spec fn pending(self) -> ActionView {
        let repo = self.repos[self.repo];
        match self.phase {
            Phase::Blacklist => ActionView::FetchBlacklist,
            Phase::Search => ActionView::Search {
                topic: self.categories[self.category].topic,
                page: self.page,
            },
            Phase::Manifest => ActionView::FetchManifest {
                owner: repo.owner.unwrap(),
                repo: repo.name,
            },
            Phase::Revision => ActionView::FetchTip {
                owner: repo.owner.unwrap(),
                repo: repo.name,
                branch: self.declarations[self.declaration].branch,
            },
            Phase::Hash => ActionView::Prefetch {
                url: archive_url_of(repo.html_url.unwrap(), self.revision),
            },
            Phase::Done => ActionView::Finish,
            Phase::Failed(fatal) => ActionView::Abort(fatal),
        }
    }

    /// The state that `input` leads to. An input that does not answer the
    /// work that the state waits for changes nothing.
    pub open spec fn next(self, input: InputView) -> Model {
        let repo = self.repos[self.repo];
        let declaration = self.declarations[self.declaration];
        match (self.phase, input) {
            (Phase::Blacklist, InputView::Blacklist(document)) => match blacklist_of(document) {
                Some(blacklist) => Model { blacklist, ..self }.enter_category(0),
                None => Model { phase: Phase::Failed(Fatal::Blacklist), ..self },
            },
            (Phase::Search, InputView::Page { repos, next }) => {
                match next {
                    Some(token) => Model { page: Some(token), ..self.seeing(repos) },
                    None => self.seeing(repos).close_search(),
                }
            },
            (Phase::Search, InputView::SearchFailed) => {
                if self.page.is_none() {
                    Model { phase: Phase::Failed(Fatal::Search), ..self }
                } else {
                    self.noting(
                        SkipView {
                            cause: Cause::SearchInterrupted,
                            subject: SubjectView::Topic(self.categories[self.category].topic),
                        },
                    ).close_search()
                }
            },
            (Phase::Manifest, InputView::Manifest(document)) => {
                let kind = self.categories[self.category].kind;
                match declarations_of(kind, repo.default_branch, document) {
                    Ok(declarations) => Model { declarations, ..self }.enter_declaration(0),
                    Err(cause) => self.noting(repository_skip(cause, repo)).enter_repository(
                        self.repo + 1,
                    ),
                }
            },
            (Phase::Revision, InputView::Tip(tip)) => match tip {
                Some(revision) => Model { phase: Phase::Hash, revision, ..self },
                None => self.noting(
                    package_skip(Cause::BranchUnavailable, repo, declaration),
                ).enter_declaration(self.declaration + 1),
            },
            (Phase::Hash, InputView::Pinned(output)) => match hash_of(output) {
                Some(hash) => Model {
                    cache: self.cache.insert(
                        key_of(repo, declaration),
                        pin_of(repo, self.revision, hash),
                    ),
                    ..self
                }.enter_declaration(self.declaration),
                None => self.noting(
                    package_skip(Cause::PinFailed, repo, declaration),
                ).enter_declaration(self.declaration + 1),
            },
            _ => self,
        }
    }
}

} // verus!
