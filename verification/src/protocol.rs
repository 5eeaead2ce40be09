//! What passes between a run and the world around it: the work that the run
//! asks for, and what comes back.

use vstd::prelude::*;
use crate::json::{document_of, read_document, Document, DocumentValue};
use crate::manifest::Kind;
use crate::repository::{Repository, RepositoryView};

verus! {

/// A category of packages: the label under which its records are emitted, the
/// topic tag under which its repositories are found, and the shape of its
/// manifests.
#[derive(Debug)]
pub struct CategorySpec {
    pub label: String,
    pub topic: String,
    pub kind: Kind,
}

/// The mathematical value of a [`CategorySpec`].
pub struct CategoryView {
    pub label: Seq<char>,
    pub topic: Seq<char>,
    pub kind: Kind,
}

impl View for CategorySpec {
    type V = CategoryView;

    open spec fn view(&self) -> CategoryView {
        CategoryView { label: self.label@, topic: self.topic@, kind: self.kind }
    }
}

impl DeepView for CategorySpec {
    type V = CategoryView;

    open spec fn deep_view(&self) -> CategoryView {
        self@
    }
}

/// What ends a run before it has an output.
#[derive(Clone, Copy, Debug, PartialEq, Eq, Structural)]
pub enum Fatal {
    /// The blacklist could not be had or is not of the expected form.
    Blacklist,
    /// The search for a topic failed on its first page.
    Search,
}

/// The work that a run asks for next.
#[derive(Debug)]
pub enum Action {
    /// Retrieve the blacklist document.
    FetchBlacklist,
    /// Search the index for `topic`: the first page where `page` is `None`,
    /// else the page that the token names.
    Search { topic: String, page: Option<String> },
    /// Retrieve the manifest file of a repository.
    FetchManifest { owner: String, repo: String },
    /// Look up the revision at the tip of a branch.
    FetchTip { owner: String, repo: String, branch: String },
    /// Have the pinner fetch the archive at `url` and report its hash.
    Prefetch { url: String },
    /// Nothing is left to do: the output is complete.
    Finish,
    /// Give up: there will be no output.
    Abort(Fatal),
}

/// The mathematical value of an [`Action`].
pub enum ActionView {
    FetchBlacklist,
    Search { topic: Seq<char>, page: Option<Seq<char>> },
    FetchManifest { owner: Seq<char>, repo: Seq<char> },
    FetchTip { owner: Seq<char>, repo: Seq<char>, branch: Seq<char> },
    Prefetch { url: Seq<char> },
    Finish,
    Abort(Fatal),
}

impl View for Action {
    type V = ActionView;

    open spec fn view(&self) -> ActionView {
        match self {
            Action::FetchBlacklist => ActionView::FetchBlacklist,
            Action::Search { topic, page } => ActionView::Search {
                topic: topic@,
                page: page.deep_view(),
            },
            Action::FetchManifest { owner, repo } => ActionView::FetchManifest {
                owner: owner@,
                repo: repo@,
            },
            Action::FetchTip { owner, repo, branch } => ActionView::FetchTip {
                owner: owner@,
                repo: repo@,
                branch: branch@,
            },
            Action::Prefetch { url } => ActionView::Prefetch { url: url@ },
            Action::Finish => ActionView::Finish,
            Action::Abort(fatal) => ActionView::Abort(*fatal),
        }
    }
}

/// What came of the work that was asked for, as it arrives: documents are
/// still text.
#[derive(Debug)]
pub enum Event {
    /// The text of the blacklist document, if it could be had.
    Blacklist(Option<String>),
    /// One page of a search, with the token of the page after it if there is
    /// one.
    Page { repos: Vec<Repository>, next: Option<String> },
    /// The search gave no page.
    SearchFailed,
    /// The text of the manifest file, if it could be had.
    Manifest(Option<String>),
    /// The revision at the tip of the branch, if it could be had.
    Tip(Option<String>),
    /// What the pinner printed, if it ran and ended well.
    Pinned(Option<String>),
}

/// What came of the work that was asked for, with its documents read.
#[derive(Debug)]
pub enum Input {
    Blacklist(Document),
    Page { repos: Vec<Repository>, next: Option<String> },
    SearchFailed,
    Manifest(Document),
    Tip(Option<String>),
    Pinned(Document),
}

/// The mathematical value of an [`Input`].
pub enum InputView {
    Blacklist(DocumentValue),
    Page { repos: Seq<RepositoryView>, next: Option<Seq<char>> },
    SearchFailed,
    Manifest(DocumentValue),
    Tip(Option<Seq<char>>),
    Pinned(DocumentValue),
}

impl View for Input {
    type V = InputView;

    open spec fn view(&self) -> InputView {
        match self {
            Input::Blacklist(document) => InputView::Blacklist(document@),
            Input::Page { repos, next } => InputView::Page {
                repos: repos.deep_view(),
                next: next.deep_view(),
            },
            Input::SearchFailed => InputView::SearchFailed,
            Input::Manifest(document) => InputView::Manifest(document@),
            Input::Tip(revision) => InputView::Tip(revision.deep_view()),
            Input::Pinned(document) => InputView::Pinned(document@),
        }
    }
}

impl Event {
    /// The input that the event stands for once its text is read.
    pub open spec fn reading(&self) -> InputView {
        match self {
            Event::Blacklist(text) => InputView::Blacklist(document_of(text.deep_view())),
            Event::Page { repos, next } => InputView::Page {
                repos: repos.deep_view(),
                next: next.deep_view(),
            },
            Event::SearchFailed => InputView::SearchFailed,
            Event::Manifest(text) => InputView::Manifest(document_of(text.deep_view())),
            Event::Tip(revision) => InputView::Tip(revision.deep_view()),
            Event::Pinned(text) => InputView::Pinned(document_of(text.deep_view())),
        }
    }

    /// Reads the text that the event carries.
    pub fn read(self) -> (input: Input)
        ensures
            input@ == self.reading(),
    {
        match self {
            Event::Blacklist(text) => Input::Blacklist(read_document(&text)),
            Event::Page { repos, next } => Input::Page { repos, next },
            Event::SearchFailed => Input::SearchFailed,
            Event::Manifest(text) => Input::Manifest(read_document(&text)),
            Event::Tip(revision) => Input::Tip(revision),
            Event::Pinned(text) => Input::Pinned(read_document(&text)),
        }
    }
}

} // verus!
