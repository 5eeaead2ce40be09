//! What a run passed over, and why. Nothing is passed over in silence: each
//! repository or package that is left out of the output leaves one record.

use vstd::prelude::*;
use vstd::string::*;
use crate::pin::{PinKey, PinKeyView};
use crate::repository::{Repository, RepositoryView};

verus! {

/// Why something was passed over.
#[derive(Clone, Copy, Debug, PartialEq, Eq, Structural)]
pub enum Cause {
    /// A later page of a topic search could not be had.
    SearchInterrupted,
    /// The repository has no canonical URL.
    MissingUrl,
    /// The repository has no owner.
    MissingOwner,
    /// The manifest file is absent or could not be retrieved.
    ManifestUnavailable,
    /// The manifest file is not a declaration or a list of declarations.
    ManifestMalformed,
    /// A declaration names no branch and the repository has no default branch.
    MissingDefaultBranch,
    /// The tip of the branch could not be had.
    BranchUnavailable,
    /// The pinner gave no content hash for the archive.
    PinFailed,
}

/// What was passed over.
#[derive(Debug)]
pub enum Subject {
    /// The rest of the search for a topic.
    Topic(String),
    /// A repository with all its declarations.
    Repository(Repository),
    /// The package `name`, declared for the branch of `key`.
    Package { key: PinKey, name: String },
}

/// The mathematical value of a [`Subject`].
pub enum SubjectView {
    Topic(Seq<char>),
    Repository(RepositoryView),
    Package { key: PinKeyView, name: Seq<char> },
}

impl View for Subject {
    type V = SubjectView;

    open spec fn view(&self) -> SubjectView {
        match self {
            Subject::Topic(topic) => SubjectView::Topic(topic@),
            Subject::Repository(repo) => SubjectView::Repository(repo@),
            Subject::Package { key, name } => SubjectView::Package { key: key@, name: name@ },
        }
    }
}

/// One record of the log of a run.
#[derive(Debug)]
pub struct Skip {
    pub cause: Cause,
    pub subject: Subject,
}

/// The mathematical value of a [`Skip`].
pub struct SkipView {
    pub cause: Cause,
    pub subject: SubjectView,
}

impl View for Skip {
    type V = SkipView;

    open spec fn view(&self) -> SkipView {
        SkipView { cause: self.cause, subject: self.subject@ }
    }
}

impl DeepView for Skip {
    type V = SkipView;

    open spec fn deep_view(&self) -> SkipView {
        self@
    }
}

/// The cause in words.
pub open spec fn cause_text(cause: Cause) -> Seq<char> {
    match cause {
        Cause::SearchInterrupted => "search ended early"@,
        Cause::MissingUrl => "repository has no URL"@,
        Cause::MissingOwner => "repository has no owner"@,
        Cause::ManifestUnavailable => "failed to get the manifest"@,
        Cause::ManifestMalformed => "failed to parse the manifest"@,
        Cause::MissingDefaultBranch => "repository has no default branch"@,
        Cause::BranchUnavailable => "failed to get latest commit"@,
        Cause::PinFailed => "failed to prefetch archive"@,
    }
}

/// The subject in words: a topic by its tag; a repository by its canonical
/// URL or, where it has none, by owner and name; a package by owner,
/// repository and branch, then its name.
pub open spec fn subject_text(subject: SubjectView) -> Seq<char> {
    match subject {
        SubjectView::Topic(topic) => "topic:"@ + topic,
        SubjectView::Repository(repo) => match repo.html_url {
            Some(url) => url,
            None => repo.owner.unwrap_or(Seq::empty()) + "/"@ + repo.name,
        },
        SubjectView::Package { key, name } => key.owner + "/"@ + key.repo + " branch "@
            + key.branch + " package "@ + name,
    }
}

/// The line that reports a record: the cause, a colon and the subject.
pub open spec fn message_of(skip: SkipView) -> Seq<char> {
    cause_text(skip.cause) + ": "@ + subject_text(skip.subject)
}

impl Cause {
    /// The cause in words.
    pub fn text(self) -> (text: &'static str)
        ensures
            text@ == cause_text(self),
    {
        match self {
            Cause::SearchInterrupted => "search ended early",
            Cause::MissingUrl => "repository has no URL",
            Cause::MissingOwner => "repository has no owner",
            Cause::ManifestUnavailable => "failed to get the manifest",
            Cause::ManifestMalformed => "failed to parse the manifest",
            Cause::MissingDefaultBranch => "repository has no default branch",
            Cause::BranchUnavailable => "failed to get latest commit",
            Cause::PinFailed => "failed to prefetch archive",
        }
    }
}

impl Subject {
    /// The subject in words.
    pub fn text(&self) -> (text: String)
        ensures
            text@ == subject_text(self@),
    {
        match self {
            Subject::Topic(topic) => {
                let mut text = "topic:".to_owned();
                text.append(topic.as_str());
                text
            },
            Subject::Repository(repo) => match &repo.html_url {
                Some(url) => url.clone(),
                None => {
                    let mut text = match &repo.owner {
                        Some(owner) => owner.clone(),
                        None => String::new(),
                    };
                    text.append("/");
                    text.append(repo.name.as_str());
                    text
                },
            },
            Subject::Package { key, name } => {
                let mut text = key.owner.clone();
                text.append("/");
                text.append(key.repo.as_str());
                text.append(" branch ");
                text.append(key.branch.as_str());
                text.append(" package ");
                text.append(name.as_str());
                text
            },
        }
    }
}

impl Skip {
    /// The line that reports the record.
    pub fn message(&self) -> (message: String)
        ensures
            message@ == message_of(self@),
    {
        let mut message = self.cause.text().to_owned();
        message.append(": ");
        let subject = self.subject.text();
        message.append(subject.as_str());
        message
    }
}

/// The record for a repository that is passed over.
pub open spec fn repository_skip(cause: Cause, repo: RepositoryView) -> SkipView {
    SkipView { cause, subject: SubjectView::Repository(repo) }
}

/// One record for each repository of `repos` that has no canonical URL, in
/// their order.
pub open spec fn unlisted(repos: Seq<RepositoryView>) -> Seq<SkipView>
    decreases repos.len(),
{
    if repos.len() == 0 {
        Seq::empty()
    } else if repos.last().html_url.is_none() {
        unlisted(repos.drop_last()).push(repository_skip(Cause::MissingUrl, repos.last()))
    } else {
        unlisted(repos.drop_last())
    }
}

/// Records the repositories of `repos` that have no canonical URL: the filter
/// cannot judge them, so they are left out and reported.
pub fn report_unlisted(repos: &Vec<Repository>, log: &mut Vec<Skip>)
    ensures
        final(log).deep_view() == old(log).deep_view() + unlisted(repos.deep_view()),
{
    let mut i: usize = 0;
    proof {
        assert(repos.deep_view().take(0) =~= Seq::empty());
        assert(log.deep_view() =~= old(log).deep_view() + Seq::empty());
    }
    while i < repos.len()
        invariant
            i <= repos.len(),
            log.deep_view() == old(log).deep_view() + unlisted(repos.deep_view().take(i as int)),
        decreases repos.len() - i,
    {
        proof {
            let all = repos.deep_view();
            assert(all.take(i + 1).drop_last() =~= all.take(i as int));
            assert(all.take(i + 1).last() == repos[i as int]@);
        }
        let ghost before = log.deep_view();
        if repos[i].html_url.is_none() {
            log.push(
                Skip { cause: Cause::MissingUrl, subject: Subject::Repository(repos[i].clone()) },
            );
            assert(log.deep_view() =~= before.push(
                repository_skip(Cause::MissingUrl, repos[i as int]@),
            ));
            assert(log.deep_view() =~= old(log).deep_view() + unlisted(
                repos.deep_view().take(i + 1),
            ));
        }
        i += 1;
    }
    proof {
        assert(repos.deep_view().take(i as int) =~= repos.deep_view());
    }
}

} // verus!
