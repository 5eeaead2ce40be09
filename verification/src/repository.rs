//! Repositories as the topic index reports them, and the filter that decides
//! which of them are looked at.

use vstd::prelude::*;
use crate::json::{Document, DocumentValue, Json, JsonValue};
use crate::text::{copy_optional, listed};

verus! {

/// A repository of the hosting platform. `html_url` is its canonical URL, the
/// one under which the blacklist names it.
#[derive(Debug)]
pub struct Repository {
    pub owner: Option<String>,
    pub name: String,
    pub html_url: Option<String>,
    pub default_branch: Option<String>,
    pub archived: bool,
}

/// The mathematical value of a [`Repository`].
pub struct RepositoryView {
    pub owner: Option<Seq<char>>,
    pub name: Seq<char>,
    pub html_url: Option<Seq<char>>,
    pub default_branch: Option<Seq<char>>,
    pub archived: bool,
}

impl View for Repository {
    type V = RepositoryView;

    open spec fn view(&self) -> RepositoryView {
        RepositoryView {
            owner: self.owner.deep_view(),
            name: self.name@,
            html_url: self.html_url.deep_view(),
            default_branch: self.default_branch.deep_view(),
            archived: self.archived,
        }
    }
}

impl DeepView for Repository {
    type V = RepositoryView;

    open spec fn deep_view(&self) -> RepositoryView {
        self@
    }
}

impl Clone for Repository {
    fn clone(&self) -> (copy: Repository)
        ensures
            copy@ == self@,
    {
        Repository {
            owner: copy_optional(&self.owner),
            name: self.name.clone(),
            html_url: copy_optional(&self.html_url),
            default_branch: copy_optional(&self.default_branch),
            archived: self.archived,
        }
    }
}

/// A repository is looked at if it has a canonical URL, the blacklist does not
/// name that URL, and it is not archived.
pub open spec fn eligible(blacklist: Seq<Seq<char>>, repo: RepositoryView) -> bool {
    &&& repo.html_url matches Some(url) && !blacklist.contains(url)
    &&& !repo.archived
}

/// The eligible repositories of `repos`, in the order in which they stand
/// there.
pub open spec fn survivors(blacklist: Seq<Seq<char>>, repos: Seq<RepositoryView>) -> Seq<
    RepositoryView,
> {
    repos.filter(|repo: RepositoryView| eligible(blacklist, repo))
}

impl Repository {
    /// Whether the repository passes the filter.
    pub fn is_eligible(&self, blacklist: &Vec<String>) -> (yes: bool)
        ensures
            yes == eligible(blacklist.deep_view(), self@),
    {
        match &self.html_url {
            Some(url) => !listed(blacklist, url) && !self.archived,
            None => false,
        }
    }
}

/// Drops the repositories that are archived, blacklisted or without a
/// canonical URL, and keeps the others in their order.
pub fn filter_tag(blacklist: &Vec<String>, tag: &Vec<Repository>) -> (kept: Vec<Repository>)
    ensures
        kept.deep_view() == survivors(blacklist.deep_view(), tag.deep_view()),
{
    let mut kept: Vec<Repository> = Vec::new();
    let mut i: usize = 0;
    proof {
        reveal(Seq::filter);
        assert(tag.deep_view().take(0) =~= Seq::empty());
        assert(kept.deep_view() =~= Seq::empty());
    }
    while i < tag.len()
        invariant
            i <= tag.len(),
            kept.deep_view() == survivors(blacklist.deep_view(), tag.deep_view().take(i as int)),
        decreases tag.len() - i,
    {
        proof {
            reveal(Seq::filter);
            let all = tag.deep_view();
            assert(all.take(i + 1).drop_last() =~= all.take(i as int));
            assert(all.take(i + 1).last() == tag[i as int]@);
        }
        let ghost before = kept.deep_view();
        if tag[i].is_eligible(blacklist) {
            kept.push(tag[i].clone());
            assert(kept.deep_view() =~= before.push(tag[i as int]@));
        }
        i += 1;
    }
    proof {
        assert(tag.deep_view().take(i as int) =~= tag.deep_view());
    }
    kept
}

/// The URLs that a blacklist document excludes: the strings of the array that
/// the object lists under `repos`. `None` where the document is not of that
/// form.
pub open spec fn blacklist_of(document: DocumentValue) -> Option<Seq<Seq<char>>> {
    match document {
        DocumentValue::Parsed(value) => match value.member("repos"@) {
            Some(JsonValue::Array(items)) => if forall|i: int|
                0 <= i < items.len() ==> #[trigger] items[i] is Text {
                Some(Seq::new(items.len(), |i: int| items[i]->Text_0))
            } else {
                None
            },
            _ => None,
        },
        _ => None,
    }
}

/// Reads a blacklist document.
pub fn read_blacklist(document: &Document) -> (blacklist: Option<Vec<String>>)
    ensures
        blacklist.deep_view() == blacklist_of(document@),
{
    let value = match document {
        Document::Parsed(value) => value,
        _ => {
            return None;
        },
    };
    let items = match value.member("repos") {
        Some(listed) => match listed.items() {
            Some(items) => items,
            None => {
                return None;
            },
        },
        None => {
            return None;
        },
    };
    let mut urls: Vec<String> = Vec::new();
    let mut i: usize = 0;
    while i < items.len()
        invariant
            i <= items.len(),
            urls.len() == i,
            document@ == DocumentValue::Parsed(value@),
            value@.member("repos"@) == Some(JsonValue::Array(items.deep_view())),
            forall|k: int|
                0 <= k < i ==> #[trigger] items.deep_view()[k] == JsonValue::Text(urls[k]@),
        decreases items.len() - i,
    {
        match &items[i] {
            Json::Text(url) => {
                urls.push(url.clone());
            },
            _ => {
                assert(!(items.deep_view()[i as int] is Text));
                return None;
            },
        }
        i += 1;
    }
    assert(urls.deep_view() =~= blacklist_of(document@).unwrap());
    Some(urls)
}

} // verus!
