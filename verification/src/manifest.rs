//! Manifests: what a repository declares about the packages it holds. A
//! manifest file is one declaration or a list of declarations; either way it
//! is read as a sequence.

use vstd::prelude::*;
use crate::json::{Document, DocumentValue, Json, JsonValue};
use crate::skip::Cause;
use crate::text::copy_optional;

verus! {

/// The shape of the packages of a category.
#[derive(Clone, Copy, Debug, PartialEq, Eq, Structural)]
pub enum Kind {
    /// A package with an entry-point file, listed under `main`.
    Extension,
    /// A package that is known by its name alone.
    App,
}

/// One declaration as the manifest file states it.
#[derive(Debug)]
pub struct PackageManifest {
    pub name: String,
    pub main: Option<String>,
    pub branch: Option<String>,
}

/// The mathematical value of a [`PackageManifest`].
pub struct PackageManifestView {
    pub name: Seq<char>,
    pub main: Option<Seq<char>>,
    pub branch: Option<Seq<char>>,
}

impl View for PackageManifest {
    type V = PackageManifestView;

    open spec fn view(&self) -> PackageManifestView {
        PackageManifestView {
            name: self.name@,
            main: self.main.deep_view(),
            branch: self.branch.deep_view(),
        }
    }
}

impl DeepView for PackageManifest {
    type V = PackageManifestView;

    open spec fn deep_view(&self) -> PackageManifestView {
        self@
    }
}

/// A declaration whose branch is settled.
#[derive(Debug)]
pub struct Declaration {
    pub name: String,
    pub main: Option<String>,
    pub branch: String,
}

/// The mathematical value of a [`Declaration`].
pub struct DeclarationView {
    pub name: Seq<char>,
    pub main: Option<Seq<char>>,
    pub branch: Seq<char>,
}

impl View for Declaration {
    type V = DeclarationView;

    open spec fn view(&self) -> DeclarationView {
        DeclarationView { name: self.name@, main: self.main.deep_view(), branch: self.branch@ }
    }
}

impl DeepView for Declaration {
    type V = DeclarationView;

    open spec fn deep_view(&self) -> DeclarationView {
        self@
    }
}

impl Clone for Declaration {
    fn clone(&self) -> (copy: Declaration)
        ensures
            copy@ == self@,
    {
        Declaration {
            name: self.name.clone(),
            main: copy_optional(&self.main),
            branch: self.branch.clone(),
        }
    }
}

/// A member that must be a string: its characters, or `None` where the member
/// is absent or something else.
pub open spec fn required_text(member: Option<JsonValue>) -> Option<Seq<char>> {
    match member {
        Some(JsonValue::Text(text)) => Some(text),
        _ => None,
    }
}

/// A member that may be left out: `Some(None)` where it is absent or null,
/// `Some(Some(..))` where it is a string, `None` where it is anything else.
pub open spec fn optional_text(member: Option<JsonValue>) -> Option<Option<Seq<char>>> {
    match member {
        None => Some(None),
        Some(JsonValue::Null) => Some(None),
        Some(JsonValue::Text(text)) => Some(Some(text)),
        _ => None,
    }
}

/// The declaration that one JSON value holds, if it holds one: an object with
/// a string `name`, for an extension a string `main`, and a `branch` that is a
/// string, null or left out. Other members are not looked at.
pub open spec fn manifest_of(kind: Kind, value: JsonValue) -> Option<PackageManifestView> {
    let name = required_text(value.member("name"@));
    let main = required_text(value.member("main"@));
    let branch = optional_text(value.member("branch"@));
    if value is Object && name.is_some() && branch.is_some() && (kind == Kind::Extension
        ==> main.is_some()) {
        Some(
            PackageManifestView {
                name: name.unwrap(),
                main: if kind == Kind::Extension {
                    main
                } else {
                    None
                },
                branch: branch.unwrap(),
            },
        )
    } else {
        None
    }
}

/// The declarations of a manifest file. A value that holds one declaration
/// stands for that declaration alone. Otherwise the value must be an array
/// each element of which holds a declaration, and stands for them in their
/// order.
pub open spec fn manifests_of(kind: Kind, value: JsonValue) -> Option<Seq<PackageManifestView>> {
    match manifest_of(kind, value) {
        Some(single) => Some(seq![single]),
        None => match value {
            JsonValue::Array(items) => if forall|i: int|
                0 <= i < items.len() ==> (#[trigger] manifest_of(kind, items[i])).is_some() {
                Some(Seq::new(items.len(), |i: int| manifest_of(kind, items[i]).unwrap()))
            } else {
                None
            },
            _ => None,
        },
    }
}

/// The declaration with its branch settled: the branch it names, else the
/// default branch; `None` where there is neither.
pub open spec fn settled(
    manifest: PackageManifestView,
    default_branch: Option<Seq<char>>,
) -> Option<DeclarationView> {
    match (manifest.branch, default_branch) {
        (Some(branch), _) => Some(
            DeclarationView { name: manifest.name, main: manifest.main, branch },
        ),
        (None, Some(branch)) => Some(
            DeclarationView { name: manifest.name, main: manifest.main, branch },
        ),
        (None, None) => None,
    }
}

/// All declarations with their branches settled, or `None` where one of them
/// has no branch to go by.
pub open spec fn all_settled(
    manifests: Seq<PackageManifestView>,
    default_branch: Option<Seq<char>>,
) -> Option<Seq<DeclarationView>> {
    if forall|i: int|
        0 <= i < manifests.len() ==> (#[trigger] settled(manifests[i], default_branch)).is_some() {
        Some(
            Seq::new(manifests.len(), |i: int| settled(manifests[i], default_branch).unwrap()),
        )
    } else {
        None
    }
}

/// What the manifest file of a repository yields: its declarations, or the
/// reason for which the repository is passed over.
pub open spec fn declarations_of(
    kind: Kind,
    default_branch: Option<Seq<char>>,
    document: DocumentValue,
) -> Result<Seq<DeclarationView>, Cause> {
    match document {
        DocumentValue::Missing => Err(Cause::ManifestUnavailable),
        DocumentValue::Malformed => Err(Cause::ManifestMalformed),
        DocumentValue::Parsed(value) => match manifests_of(kind, value) {
            None => Err(Cause::ManifestMalformed),
            Some(manifests) => match all_settled(manifests, default_branch) {
                None => Err(Cause::MissingDefaultBranch),
                Some(declarations) => Ok(declarations),
            },
        },
    }
}

/// The view of a result that holds declarations.
pub open spec fn outcome_view(outcome: Result<Vec<Declaration>, Cause>) -> Result<
    Seq<DeclarationView>,
    Cause,
> {
    match outcome {
        Ok(declarations) => Ok(declarations.deep_view()),
        Err(cause) => Err(cause),
    }
}

/// Reads a member that must be a string.
fn read_required(value: &Json, key: &str) -> (text: Option<String>)
    ensures
        text.deep_view() == required_text(value@.member(key@)),
{
    match value.member(key) {
        Some(Json::Text(text)) => Some(text.clone()),
        _ => None,
    }
}

/// Reads a member that may be left out.
fn read_optional(value: &Json, key: &str) -> (text: Option<Option<String>>)
    ensures
        match text {
            Some(inner) => optional_text(value@.member(key@)) == Some(inner.deep_view()),
            None => optional_text(value@.member(key@)).is_none(),
        },
{
    match value.member(key) {
        None => Some(None),
        Some(Json::Null) => Some(None),
        Some(Json::Text(text)) => Some(Some(text.clone())),
        _ => None,
    }
}

/// Reads one declaration.
pub fn decode_manifest(kind: Kind, value: &Json) -> (manifest: Option<PackageManifest>)
    ensures
        manifest.deep_view() == manifest_of(kind, value@),
{
    match value {
        Json::Object(_) => {},
        _ => {
            return None;
        },
    }
    let name = match read_required(value, "name") {
        Some(name) => name,
        None => {
            return None;
        },
    };
    let branch = match read_optional(value, "branch") {
        Some(branch) => branch,
        None => {
            return None;
        },
    };
    match kind {
        Kind::Extension => match read_required(value, "main") {
            Some(main) => Some(PackageManifest { name, main: Some(main), branch }),
            None => None,
        },
        Kind::App => Some(PackageManifest { name, main: None, branch }),
    }
}

/// Reads a manifest file: one declaration, or a list of them.
pub fn decode_manifests(kind: Kind, value: &Json) -> (manifests: Option<Vec<PackageManifest>>)
    ensures
        manifests.deep_view() == manifests_of(kind, value@),
{
    match decode_manifest(kind, value) {
        Some(single) => {
            let mut manifests: Vec<PackageManifest> = Vec::new();
            manifests.push(single);
            assert(manifests.deep_view() =~= seq![single@]);
            Some(manifests)
        },
        None => match value.items() {
            None => None,
            Some(items) => {
                let mut manifests: Vec<PackageManifest> = Vec::new();
                let mut i: usize = 0;
                while i < items.len()
                    invariant
                        i <= items.len(),
                        value@ == JsonValue::Array(items.deep_view()),
                        manifests.len() == i,
                        forall|k: int|
                            0 <= k < i ==> manifest_of(kind, #[trigger] items.deep_view()[k])
                                == Some(manifests[k]@),
                    decreases items.len() - i,
                {
                    match decode_manifest(kind, &items[i]) {
                        Some(manifest) => {
                            manifests.push(manifest);
                        },
                        None => {
                            assert(manifest_of(kind, items.deep_view()[i as int]).is_none());
                            return None;
                        },
                    }
                    i += 1;
                }
                assert(manifests.deep_view() =~= manifests_of(kind, value@).unwrap());
                Some(manifests)
            },
        },
    }
}

/// Settles the branch of every declaration.
pub fn settle_branches(
    manifests: &Vec<PackageManifest>,
    default_branch: &Option<String>,
) -> (settled: Option<Vec<Declaration>>)
    ensures
        settled.deep_view() == all_settled(manifests.deep_view(), default_branch.deep_view()),
{
    let mut declarations: Vec<Declaration> = Vec::new();
    let mut i: usize = 0;
    while i < manifests.len()
        invariant
            i <= manifests.len(),
            declarations.len() == i,
            forall|k: int|
                0 <= k < i ==> settled(
                    #[trigger] manifests.deep_view()[k],
                    default_branch.deep_view(),
                ) == Some(declarations[k]@),
        decreases manifests.len() - i,
    {
        let manifest = &manifests[i];
        assert(manifest@ == manifests.deep_view()[i as int]);
        let branch = match &manifest.branch {
            Some(branch) => branch.clone(),
            None => match default_branch {
                Some(branch) => branch.clone(),
                None => {
                    assert(settled(manifests.deep_view()[i as int], default_branch.deep_view())
                        .is_none());
                    return None;
                },
            },
        };
        declarations.push(
            Declaration {
                name: manifest.name.clone(),
                main: copy_optional(&manifest.main),
                branch,
            },
        );
        i += 1;
    }
    assert(declarations.deep_view() =~= all_settled(
        manifests.deep_view(),
        default_branch.deep_view(),
    ).unwrap());
    Some(declarations)
}

/// Reads the manifest file of a repository of the given kind and settles the
/// branches of its declarations by the repository's default branch.
pub fn resolve(
    kind: Kind,
    default_branch: &Option<String>,
    document: &Document,
) -> (outcome: Result<Vec<Declaration>, Cause>)
    ensures
        outcome_view(outcome) == declarations_of(kind, default_branch.deep_view(), document@),
{
    match document {
        Document::Missing => Err(Cause::ManifestUnavailable),
        Document::Malformed => Err(Cause::ManifestMalformed),
        Document::Parsed(value) => match decode_manifests(kind, value) {
            None => Err(Cause::ManifestMalformed),
            Some(manifests) => match settle_branches(&manifests, default_branch) {
                None => Err(Cause::MissingDefaultBranch),
                Some(declarations) => Ok(declarations),
            },
        },
    }
}

/// A manifest file that holds one object and a manifest file that holds an
/// array of that one object stand for the same declarations.
pub proof fn lemma_single_is_list_of_one(kind: Kind, object: JsonValue)
    requires
        object is Object,
    ensures
        manifests_of(kind, JsonValue::Array(seq![object])) == manifests_of(kind, object),
{
    let list = JsonValue::Array(seq![object]);
    assert(manifest_of(kind, list).is_none());
    assert(seq![object][0] == object);
    match manifest_of(kind, object) {
        Some(single) => {
            assert(manifests_of(kind, list).unwrap() =~= seq![single]);
        },
        None => {
            assert(manifest_of(kind, seq![object][0]).is_none());
        },
    }
}

/// The same holds of what the manifest file of a repository yields, whatever
/// the repository's default branch.
pub proof fn lemma_single_or_list_yield_alike(
    kind: Kind,
    default_branch: Option<Seq<char>>,
    object: JsonValue,
)
    requires
        object is Object,
    ensures
        declarations_of(kind, default_branch, DocumentValue::Parsed(JsonValue::Array(seq![object])))
            == declarations_of(kind, default_branch, DocumentValue::Parsed(object)),
{
    lemma_single_is_list_of_one(kind, object);
}

} // verus!
