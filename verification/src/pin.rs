//! Source pins: the key under which a pin is resolved, the pin itself, the
//! archive address it is fetched from, and the cache that holds the pins of a
//! run.

use vstd::prelude::*;
use vstd::string::*;
use crate::json::{DocumentValue, Document, JsonValue};

verus! {

/// The key of a pin: owner, repository and branch, each kept as it is.
#[derive(Debug)]
pub struct PinKey {
    pub owner: String,
    pub repo: String,
    pub branch: String,
}

/// The mathematical value of a [`PinKey`].
pub struct PinKeyView {
    pub owner: Seq<char>,
    pub repo: Seq<char>,
    pub branch: Seq<char>,
}

impl View for PinKey {
    type V = PinKeyView;

    open spec fn view(&self) -> PinKeyView {
        PinKeyView { owner: self.owner@, repo: self.repo@, branch: self.branch@ }
    }
}

impl DeepView for PinKey {
    type V = PinKeyView;

    open spec fn deep_view(&self) -> PinKeyView {
        self@
    }
}

impl Clone for PinKey {
    fn clone(&self) -> (copy: PinKey)
        ensures
            copy@ == self@,
    {
        PinKey {
            owner: self.owner.clone(),
            repo: self.repo.clone(),
            branch: self.branch.clone(),
        }
    }
}

impl PinKey {
    /// Whether two keys name the same owner, repository and branch.
    pub fn same(&self, other: &PinKey) -> (yes: bool)
        ensures
            yes == (self@ == other@),
    {
        self.owner == other.owner && self.repo == other.repo && self.branch == other.branch
    }
}

/// A revision of a repository together with the address and the content hash
/// of its archive.
#[derive(Debug)]
pub struct SourcePin {
    pub url: String,
    pub owner: String,
    pub repo: String,
    pub revision: String,
    pub hash: String,
}

/// The mathematical value of a [`SourcePin`].
pub struct SourcePinView {
    pub url: Seq<char>,
    pub owner: Seq<char>,
    pub repo: Seq<char>,
    pub revision: Seq<char>,
    pub hash: Seq<char>,
}

impl View for SourcePin {
    type V = SourcePinView;

    open spec fn view(&self) -> SourcePinView {
        SourcePinView {
            url: self.url@,
            owner: self.owner@,
            repo: self.repo@,
            revision: self.revision@,
            hash: self.hash@,
        }
    }
}

impl DeepView for SourcePin {
    type V = SourcePinView;

    open spec fn deep_view(&self) -> SourcePinView {
        self@
    }
}

impl Clone for SourcePin {
    fn clone(&self) -> (copy: SourcePin)
        ensures
            copy@ == self@,
    {
        SourcePin {
            url: self.url.clone(),
            owner: self.owner.clone(),
            repo: self.repo.clone(),
            revision: self.revision.clone(),
            hash: self.hash.clone(),
        }
    }
}

/// The address of the archive of `revision`: the repository's canonical URL,
/// then `/archive/`, the revision and `.tar.gz`.
pub open spec fn archive_url_of(html_url: Seq<char>, revision: Seq<char>) -> Seq<char> {
    html_url + "/archive/"@ + revision + ".tar.gz"@
}

/// Builds the address of the archive of `revision`.
pub fn archive_url(html_url: &str, revision: &str) -> (url: String)
    ensures
        url@ == archive_url_of(html_url@, revision@),
{
    let mut url = html_url.to_owned();
    url.append("/archive/");
    url.append(revision);
    url.append(".tar.gz");
    url
}

/// The content hash that the pinner reported: the string under `hash` of the
/// object that it printed.
pub open spec fn hash_of(output: DocumentValue) -> Option<Seq<char>> {
    match output {
        DocumentValue::Parsed(j) => match j.member("hash"@) {
            Some(JsonValue::Text(hash)) => Some(hash),
            _ => None,
        },
        _ => None,
    }
}

/// Reads the content hash out of what the pinner printed.
pub fn fetch_hash(output: &Document) -> (hash: Option<String>)
    ensures
        hash.deep_view() == hash_of(output@),
{
    match output {
        Document::Parsed(j) => match j.member("hash") {
            Some(value) => match value.text() {
                Some(hash) => Some(hash.clone()),
                None => None,
            },
            None => None,
        },
        _ => None,
    }
}

} // verus!
