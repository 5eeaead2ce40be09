//! What holds of every run, proved of the state machine.

use vstd::prelude::*;
use crate::json::DocumentValue;
use crate::manifest::{declarations_of, DeclarationView};
use crate::model::{
    initial, key_of, package_skip, pin_from, pin_of, records_sound, vouched, Model, Phase,
};
use crate::output::{output_of, CategoryOutputView};
use crate::pin::{archive_url_of, hash_of, PinKeyView, SourcePinView};
use crate::protocol::{ActionView, CategoryView, InputView};
use crate::repository::{blacklist_of, eligible, survivors, RepositoryView};
use crate::skip::{repository_skip, unlisted, Cause, SkipView, SubjectView};

verus! {

/// A run begins in a well-formed state.
pub proof fn lemma_initial_well_formed(categories: Seq<CategoryView>)
    ensures
        initial(categories).well_formed(),
{
}

/// A pin that is vouched stays vouched when more repositories are seen.
proof fn lemma_vouched_grows(
    blacklist: Seq<Seq<char>>,
    seen: Seq<RepositoryView>,
    more: Seq<RepositoryView>,
    pin: SourcePinView,
)
    requires
        vouched(blacklist, seen, pin),
    ensures
        vouched(blacklist, seen + more, pin),
{
    let i = choose|i: int|
        0 <= i < seen.len() && eligible(blacklist, #[trigger] seen[i]) && pin_from(seen[i], pin);
    assert((seen + more)[i] == seen[i]);
}

/// Entering a category keeps the state well-formed.
proof fn lemma_enter_category(m: Model, at: int)
    requires
        m.sound(),
        at == m.category,
    ensures
        m.enter_category(at).well_formed(),
        m.carried_into(m.enter_category(at)),
{
}

/// Entering a repository keeps the state well-formed and takes nothing back.
proof fn lemma_enter_repository(m: Model, at: int)
    requires
        m.sound(),
        m.category < m.categories.len(),
        0 <= at <= m.repos.len(),
    ensures
        m.enter_repository(at).well_formed(),
        m.enter_repository(at).cache == m.cache,
        m.carried_into(m.enter_repository(at)),
    decreases m.repos.len() - at,
{
    if at >= m.repos.len() {
        let finished = CategoryOutputView {
            label: m.categories[m.category].label,
            packages: m.packages,
        };
        let closed = Model { document: m.document.push(finished), packages: Map::empty(), ..m };
        let after = closed.enter_category(m.category + 1);
        assert forall|c: int| 0 <= c < after.document.len() implies {
            &&& (#[trigger] after.document[c]).label == after.categories[c].label
            &&& records_sound(after.blacklist, after.seen, after.document[c].packages)
        } by {
            if c < m.document.len() {
                assert(after.document[c] == m.document[c]);
            }
        }
    } else if m.repos[at].owner.is_none() {
        let skip = repository_skip(Cause::MissingOwner, m.repos[at]);
        lemma_enter_repository(m.noting(skip), at + 1);
    }
}

/// Entering a declaration keeps the state well-formed and takes nothing back.
proof fn lemma_enter_declaration(m: Model, at: int)
    requires
        m.sound(),
        m.category < m.categories.len(),
        0 <= m.repo < m.repos.len(),
        m.repos[m.repo].owner.is_some(),
        0 <= at <= m.declarations.len(),
    ensures
        m.enter_declaration(at).well_formed(),
        m.enter_declaration(at).cache == m.cache,
        m.carried_into(m.enter_declaration(at)),
    decreases m.declarations.len() - at,
{
    if at >= m.declarations.len() {
        lemma_enter_repository(m, m.repo + 1);
    } else if m.cache.contains_key(key_of(m.repos[m.repo], m.declarations[at])) {
        let declaration = m.declarations[at];
        let with = m.recording(at);
        assert forall|name: Seq<char>| #[trigger] with.packages.contains_key(name) implies {
            &&& with.packages[name].name == name
            &&& vouched(with.blacklist, with.seen, with.packages[name].source)
        } by {
            if name != declaration.name {
                assert(m.packages.contains_key(name));
            }
        }
        lemma_enter_declaration(with, at + 1);
    }
}

/// Seeing more repositories keeps the state sound.
proof fn lemma_seeing(m: Model, more: Seq<RepositoryView>)
    requires
        m.sound(),
    ensures
        m.seeing(more).sound(),
        m.carried_into(m.seeing(more)),
{
    let after = m.seeing(more);
    assert forall|pin: SourcePinView| vouched(m.blacklist, m.seen, pin) implies vouched(
        after.blacklist,
        after.seen,
        pin,
    ) by {
        lemma_vouched_grows(m.blacklist, m.seen, more, pin);
    }
    assert forall|r: RepositoryView| m.seen.contains(r) implies after.seen.contains(r) by {
        let i = choose|i: int| 0 <= i < m.seen.len() && m.seen[i] == r;
        assert(after.seen[i] == r);
    }
    assert forall|i: int| 0 <= i < after.found.len() implies after.seen.contains(
        #[trigger] after.found[i],
    ) by {
        if i >= m.found.len() {
            assert(after.seen[m.seen.len() + (i - m.found.len())] == after.found[i]);
        }
    }
    assert forall|c: int| 0 <= c < after.document.len() implies records_sound(
        after.blacklist,
        after.seen,
        (#[trigger] after.document[c]).packages,
    ) by {
        assert(records_sound(m.blacklist, m.seen, m.document[c].packages));
    }
}

/// Closing a search keeps the state well-formed and takes nothing back.
proof fn lemma_close_search(m: Model)
    requires
        m.sound(),
        m.category < m.categories.len(),
    ensures
        m.close_search().well_formed(),
        m.carried_into(m.close_search()),
{
    let kept = survivors(m.blacklist, m.found);
    let pred = |repo: RepositoryView| eligible(m.blacklist, repo);
    let filtered = Model { repos: kept, log: m.log + unlisted(m.found), ..m };
    assert forall|i: int| 0 <= i < kept.len() implies eligible(m.blacklist, #[trigger] kept[i])
        && m.seen.contains(kept[i]) by {
        m.found.lemma_filter_pred(pred, i);
        assert(kept.contains(kept[i]));
        m.found.lemma_filter_contains_rev(pred, kept[i]);
        let j = choose|j: int| 0 <= j < m.found.len() && m.found[j] == kept[i];
        assert(m.seen.contains(m.found[j]));
    }
    lemma_enter_repository(filtered, 0);
}

/// Every input leads from a well-formed state to a well-formed state, and
/// nothing that was put down is taken back: every pin, every record of a
/// finished category and every record of the log is still there.
pub proof fn lemma_next_well_formed(m: Model, input: InputView)
    requires
        m.well_formed(),
    ensures
        m.next(input).well_formed(),
        m.carried_into(m.next(input)),
{
    let repo = m.repos[m.repo];
    let declaration = m.declarations[m.declaration];
    match (m.phase, input) {
        (Phase::Blacklist, InputView::Blacklist(document)) => {
            match blacklist_of(document) {
                Some(blacklist) => {
                    lemma_enter_category(Model { blacklist, ..m }, 0);
                },
                None => {},
            }
        },
        (Phase::Search, InputView::Page { repos, next }) => {
            lemma_seeing(m, repos);
            if next.is_none() {
                lemma_close_search(m.seeing(repos));
            }
        },
        (Phase::Search, InputView::SearchFailed) => {
            if m.page.is_some() {
                let skip = SkipView {
                    cause: Cause::SearchInterrupted,
                    subject: SubjectView::Topic(m.categories[m.category].topic),
                };
                lemma_close_search(m.noting(skip));
            }
        },
        (Phase::Manifest, InputView::Manifest(document)) => {
            let kind = m.categories[m.category].kind;
            match declarations_of(kind, repo.default_branch, document) {
                Ok(declarations) => {
                    lemma_enter_declaration(Model { declarations, ..m }, 0);
                },
                Err(cause) => {
                    lemma_enter_repository(m.noting(repository_skip(cause, repo)), m.repo + 1);
                },
            }
        },
        (Phase::Revision, InputView::Tip(None)) => {
            let skip = package_skip(Cause::BranchUnavailable, repo, declaration);
            lemma_enter_declaration(m.noting(skip), m.declaration + 1);
        },
        (Phase::Hash, InputView::Pinned(output)) => {
            match hash_of(output) {
                Some(hash) => {
                    let key = key_of(repo, declaration);
                    let pin = pin_of(repo, m.revision, hash);
                    let with = Model { cache: m.cache.insert(key, pin), ..m };
                    assert(vouched(m.blacklist, m.seen, pin)) by {
                        let i = choose|i: int| 0 <= i < m.seen.len() && m.seen[i] == repo;
                        assert(eligible(m.blacklist, m.seen[i]) && pin_from(m.seen[i], pin));
                    }
                    lemma_enter_declaration(with, m.declaration);
                },
                None => {
                    let skip = package_skip(Cause::PinFailed, repo, declaration);
                    lemma_enter_declaration(m.noting(skip), m.declaration + 1);
                },
            }
        },
        _ => {},
    }
}

/// The state that a run is in after `inputs` came in, one after the other.
pub open spec fn after(m: Model, inputs: Seq<InputView>) -> Model
    decreases inputs.len(),
{
    if inputs.len() == 0 {
        m
    } else {
        after(m, inputs.drop_last()).next(inputs.last())
    }
}

/// A sequence that goes on from a sequence that goes on from a third goes on
/// from the third.
proof fn lemma_prefix_of_prefix<A>(first: Seq<A>, second: Seq<A>, third: Seq<A>)
    requires
        first.is_prefix_of(second),
        second.is_prefix_of(third),
    ensures
        first.is_prefix_of(third),
{
    assert forall|i: int| 0 <= i < first.len() implies first[i] == third[i] by {
        assert(first[i] == second.subrange(0, first.len() as int)[i]);
        assert(second[i] == third.subrange(0, second.len() as int)[i]);
    }
    assert(first =~= third.subrange(0, first.len() as int));
}

/// What is carried from one state into a second and from there into a third
/// is carried from the first into the third.
proof fn lemma_carried_on(first: Model, second: Model, third: Model)
    requires
        first.carried_into(second),
        second.carried_into(third),
    ensures
        first.carried_into(third),
{
    lemma_prefix_of_prefix(first.document, second.document, third.document);
    lemma_prefix_of_prefix(first.log, second.log, third.log);
    lemma_prefix_of_prefix(first.seen, second.seen, third.seen);
    assert forall|key: PinKeyView| #[trigger] first.cache.dom().contains(key) implies {
        &&& #[trigger] third.cache.dom().contains(key)
        &&& first.cache[key] == third.cache[key]
    } by {
        assert(second.cache.dom().contains(key));
    }
}

/// Whatever comes in, in whatever order, a run stays well-formed and takes
/// nothing back.
pub proof fn lemma_after_well_formed(m: Model, inputs: Seq<InputView>)
    requires
        m.well_formed(),
    ensures
        after(m, inputs).well_formed(),
        m.carried_into(after(m, inputs)),
    decreases inputs.len(),
{
    if inputs.len() > 0 {
        let before = after(m, inputs.drop_last());
        lemma_after_well_formed(m, inputs.drop_last());
        lemma_next_well_formed(before, inputs.last());
        lemma_carried_on(m, before, after(m, inputs));
    }
}

/// Every state that a run over `categories` can reach is well-formed.
pub proof fn lemma_run_well_formed(categories: Seq<CategoryView>, inputs: Seq<InputView>)
    ensures
        after(initial(categories), inputs).well_formed(),
{
    lemma_after_well_formed(initial(categories), inputs);
}

/// A key is resolved once for the whole run: whatever comes in after its pin
/// is in the cache, the key keeps that pin.
pub proof fn lemma_pins_stay(m: Model, inputs: Seq<InputView>, key: PinKeyView)
    requires
        m.well_formed(),
        m.cache.contains_key(key),
    ensures
        after(m, inputs).cache.contains_key(key),
        after(m, inputs).cache[key] == m.cache[key],
{
    lemma_after_well_formed(m, inputs);
}

/// What a run has passed over stays in its log: whatever comes in, the log
/// goes on from what it was.
pub proof fn lemma_log_stays(m: Model, inputs: Seq<InputView>)
    requires
        m.well_formed(),
    ensures
        m.log.is_prefix_of(after(m, inputs).log),
{
    lemma_after_well_formed(m, inputs);
}

/// A repository whose manifest cannot be had or read is passed over with a
/// record of the cause, and the run goes on with the repository after it.
pub proof fn lemma_failed_manifest_is_logged(m: Model, document: DocumentValue, cause: Cause)
    requires
        m.well_formed(),
        m.phase is Manifest,
        declarations_of(m.categories[m.category].kind, m.repos[m.repo].default_branch, document)
            == Err::<Seq<DeclarationView>, Cause>(cause),
    ensures
        m.next(InputView::Manifest(document)) == m.noting(
            repository_skip(cause, m.repos[m.repo]),
        ).enter_repository(m.repo + 1),
        m.log.len() < m.next(InputView::Manifest(document)).log.len(),
        m.next(InputView::Manifest(document)).log[m.log.len() as int] == repository_skip(
            cause,
            m.repos[m.repo],
        ),
{
    let noted = m.noting(repository_skip(cause, m.repos[m.repo]));
    lemma_enter_repository(noted, m.repo + 1);
    assert(noted.log.is_prefix_of(m.next(InputView::Manifest(document)).log));
    assert(noted.log[m.log.len() as int] == repository_skip(cause, m.repos[m.repo]));
}

/// A package whose branch has no tip to be had is passed over with a record
/// of the cause; the cache stays as it is.
pub proof fn lemma_missing_branch_is_logged(m: Model)
    requires
        m.well_formed(),
        m.phase is Revision,
    ensures
        m.log.len() < m.next(InputView::Tip(None)).log.len(),
        m.next(InputView::Tip(None)).log[m.log.len() as int] == package_skip(
            Cause::BranchUnavailable,
            m.repos[m.repo],
            m.declarations[m.declaration],
        ),
        m.next(InputView::Tip(None)).cache == m.cache,
{
    let declaration = m.declarations[m.declaration];
    let skip = package_skip(Cause::BranchUnavailable, m.repos[m.repo], declaration);
    let noted = m.noting(skip);
    lemma_enter_declaration(noted, m.declaration + 1);
    assert(noted.log.is_prefix_of(m.next(InputView::Tip(None)).log));
    assert(noted.log[m.log.len() as int] == skip);
}

/// A package for whose archive the pinner gives no hash is passed over with
/// a record of the cause; the cache stays as it is.
pub proof fn lemma_failed_pin_is_logged(m: Model, output: DocumentValue)
    requires
        m.well_formed(),
        m.phase is Hash,
        hash_of(output).is_none(),
    ensures
        m.log.len() < m.next(InputView::Pinned(output)).log.len(),
        m.next(InputView::Pinned(output)).log[m.log.len() as int] == package_skip(
            Cause::PinFailed,
            m.repos[m.repo],
            m.declarations[m.declaration],
        ),
        m.next(InputView::Pinned(output)).cache == m.cache,
{
    let skip = package_skip(Cause::PinFailed, m.repos[m.repo], m.declarations[m.declaration]);
    let noted = m.noting(skip);
    lemma_enter_declaration(noted, m.declaration + 1);
    assert(noted.log.is_prefix_of(m.next(InputView::Pinned(output)).log));
    assert(noted.log[m.log.len() as int] == skip);
}

/// Outside work for a pin is asked for only while the cache holds no pin for
/// its key: neither the tip of a branch nor the hash of an archive is asked
/// for on behalf of a key that is resolved.
pub proof fn lemma_asks_only_for_unresolved(m: Model)
    requires
        m.well_formed(),
    ensures
        m.pending() matches ActionView::FetchTip { owner, repo, branch } ==> !m.cache.contains_key(
            PinKeyView { owner, repo, branch },
        ),
        m.pending() is Prefetch ==> !m.cache.contains_key(
            key_of(m.repos[m.repo], m.declarations[m.declaration]),
        ),
{
}

/// Once a key is resolved, no outside work is asked for on its behalf for the
/// rest of the run, whatever comes in.
pub proof fn lemma_resolved_once(m: Model, inputs: Seq<InputView>, key: PinKeyView)
    requires
        m.well_formed(),
        m.cache.contains_key(key),
    ensures
        after(m, inputs).pending() != (ActionView::FetchTip {
            owner: key.owner,
            repo: key.repo,
            branch: key.branch,
        }),
        after(m, inputs).pending() is Prefetch ==> key != key_of(
            after(m, inputs).repos[after(m, inputs).repo],
            after(m, inputs).declarations[after(m, inputs).declaration],
        ),
{
    lemma_after_well_formed(m, inputs);
    lemma_asks_only_for_unresolved(after(m, inputs));
}

/// A declaration whose key is resolved needs no outside work: it gets its
/// record with the very pin that the cache holds, and the run goes on to the
/// declaration after it.
pub proof fn lemma_resolved_needs_no_work(m: Model, at: int)
    requires
        0 <= at < m.declarations.len(),
        m.cache.contains_key(key_of(m.repos[m.repo], m.declarations[at])),
    ensures
        m.enter_declaration(at) == m.recording(at).enter_declaration(at + 1),
        m.recording(at).packages[m.declarations[at].name].source == m.cache[key_of(
            m.repos[m.repo],
            m.declarations[at],
        )],
        m.recording(at).cache == m.cache,
{
}

/// Of two declarations with one name that follow each other and whose keys
/// are resolved, the record of the later one stays.
pub proof fn lemma_later_declaration_wins(m: Model, at: int)
    requires
        0 <= at,
        at + 1 < m.declarations.len(),
        m.declarations[at].name == m.declarations[at + 1].name,
        m.cache.contains_key(key_of(m.repos[m.repo], m.declarations[at])),
        m.cache.contains_key(key_of(m.repos[m.repo], m.declarations[at + 1])),
    ensures
        m.enter_declaration(at) == m.recording(at + 1).enter_declaration(at + 2),
        m.recording(at + 1).packages[m.declarations[at].name] == output_of(
            m.declarations[at + 1],
            m.cache[key_of(m.repos[m.repo], m.declarations[at + 1])],
        ),
{
    let first = m.recording(at);
    assert(first.enter_declaration(at + 1) == first.recording(at + 1).enter_declaration(at + 2));
    assert(first.recording(at + 1).packages =~= m.recording(at + 1).packages);
}

/// The output of a run that is done has one entry for each category, in the
/// order of the categories and under their labels, and every record stands
/// under its own name.
pub proof fn lemma_output_shape(m: Model)
    requires
        m.well_formed(),
        m.phase is Done,
    ensures
        m.document.len() == m.categories.len(),
        forall|c: int|
            0 <= c < m.document.len() ==> (#[trigger] m.document[c]).label
                == m.categories[c].label,
        forall|c: int, name: Seq<char>|
            0 <= c < m.document.len() && #[trigger] m.document[c].packages.contains_key(name)
                ==> m.document[c].packages[name].name == name,
{
    assert forall|c: int, name: Seq<char>|
        0 <= c < m.document.len() && #[trigger] m.document[c].packages.contains_key(
            name,
        ) implies m.document[c].packages[name].name == name by {
        assert(records_sound(m.blacklist, m.seen, m.document[c].packages));
    }
}

/// Every pin of the cache is the pin of its key: it names the key's owner and
/// repository.
pub proof fn lemma_pin_fits_key(m: Model, key: PinKeyView)
    requires
        m.well_formed(),
        m.cache.contains_key(key),
    ensures
        m.cache[key].owner == key.owner,
        m.cache[key].repo == key.repo,
{
}

/// Every record of the output has its pin from a repository that a search of
/// the run reported, that is not archived, and whose canonical URL the
/// blacklist does not name.
pub proof fn lemma_records_vouched(m: Model, c: int, name: Seq<char>)
    requires
        m.well_formed(),
        0 <= c < m.document.len(),
        m.document[c].packages.contains_key(name),
    ensures
        exists|i: int|
            0 <= i < m.seen.len() && !(#[trigger] m.seen[i]).archived && pin_from(
                m.seen[i],
                m.document[c].packages[name].source,
            ) && !m.blacklist.contains(m.seen[i].html_url.unwrap()),
{
    let pin = m.document[c].packages[name].source;
    assert(records_sound(m.blacklist, m.seen, m.document[c].packages));
    assert(vouched(m.blacklist, m.seen, pin));
    let i = choose|i: int|
        0 <= i < m.seen.len() && eligible(m.blacklist, #[trigger] m.seen[i]) && pin_from(
            m.seen[i],
            pin,
        );
    assert(!m.seen[i].archived);
}

/// The address of an archive tells the repository: two canonical URLs that
/// give one address for one revision are the same.
pub proof fn lemma_archive_url_tells(first: Seq<char>, second: Seq<char>, revision: Seq<char>)
    requires
        archive_url_of(first, revision) == archive_url_of(second, revision),
    ensures
        first == second,
{
    let tail = "/archive/"@ + revision + ".tar.gz"@;
    assert(archive_url_of(first, revision) =~= first + tail);
    assert(archive_url_of(second, revision) =~= second + tail);
    assert(first.len() == second.len());
    assert((first + tail).subrange(0, first.len() as int) =~= first);
    assert((second + tail).subrange(0, second.len() as int) =~= second);
}

/// No record of the output is pinned to an archive of a repository whose
/// canonical URL the blacklist names.
pub proof fn lemma_blacklisted_left_out(m: Model, c: int, name: Seq<char>, url: Seq<char>)
    requires
        m.well_formed(),
        0 <= c < m.document.len(),
        m.document[c].packages.contains_key(name),
        m.blacklist.contains(url),
    ensures
        m.document[c].packages[name].source.url != archive_url_of(
            url,
            m.document[c].packages[name].source.revision,
        ),
{
    let pin = m.document[c].packages[name].source;
    lemma_records_vouched(m, c, name);
    let i = choose|i: int|
        0 <= i < m.seen.len() && !(#[trigger] m.seen[i]).archived && pin_from(m.seen[i], pin)
            && !m.blacklist.contains(m.seen[i].html_url.unwrap());
    if pin.url == archive_url_of(url, pin.revision) {
        lemma_archive_url_tells(m.seen[i].html_url.unwrap(), url, pin.revision);
    }
}

/// No record of the output is pinned to an archive of a repository that the
/// searches reported as archived whenever they reported it.
pub proof fn lemma_archived_left_out(m: Model, c: int, name: Seq<char>, url: Seq<char>)
    requires
        m.well_formed(),
        0 <= c < m.document.len(),
        m.document[c].packages.contains_key(name),
        forall|i: int|
            0 <= i < m.seen.len() && (#[trigger] m.seen[i]).html_url == Some(url)
                ==> m.seen[i].archived,
    ensures
        m.document[c].packages[name].source.url != archive_url_of(
            url,
            m.document[c].packages[name].source.revision,
        ),
{
    let pin = m.document[c].packages[name].source;
    lemma_records_vouched(m, c, name);
    let i = choose|i: int|
        0 <= i < m.seen.len() && !(#[trigger] m.seen[i]).archived && pin_from(m.seen[i], pin)
            && !m.blacklist.contains(m.seen[i].html_url.unwrap());
    if pin.url == archive_url_of(url, pin.revision) {
        lemma_archive_url_tells(m.seen[i].html_url.unwrap(), url, pin.revision);
    }
}

/// The repositories of all of `pages`, page after page.
pub open spec fn gathered(pages: Seq<Seq<RepositoryView>>) -> Seq<RepositoryView>
    decreases pages.len(),
{
    if pages.len() == 0 {
        Seq::empty()
    } else {
        gathered(pages.drop_last()) + pages.last()
    }
}

/// The state after the pages `pages` came in, each with the token of a page
/// after it.
pub open spec fn after_pages(
    m: Model,
    pages: Seq<Seq<RepositoryView>>,
    tokens: Seq<Seq<char>>,
) -> Model
    decreases pages.len(),
{
    if pages.len() == 0 {
        m
    } else {
        after_pages(m, pages.drop_last(), tokens.drop_last()).next(
            InputView::Page { repos: pages.last(), next: Some(tokens.last()) },
        )
    }
}

/// Entering a repository leaves the filtered repositories as they are.
proof fn lemma_enter_repository_keeps_repos(m: Model, at: int)
    ensures
        m.enter_repository(at).repos == m.repos,
        m.enter_repository(at).blacklist == m.blacklist,
    decreases m.repos.len() - at,
{
    if 0 <= at < m.repos.len() && m.repos[at].owner.is_none() {
        let skip = repository_skip(Cause::MissingOwner, m.repos[at]);
        lemma_enter_repository_keeps_repos(m.noting(skip), at + 1);
    }
}

/// A search follows the tokens to the end: while pages come in with a token
/// the run keeps searching and keeps every repository of every page, and
/// when the page without a token has come in, the repositories that it goes
/// on with are the eligible ones of all pages, the last one included.
pub proof fn lemma_pages_gathered(
    m: Model,
    pages: Seq<Seq<RepositoryView>>,
    tokens: Seq<Seq<char>>,
    last: Seq<RepositoryView>,
)
    requires
        m.phase is Search,
        pages.len() == tokens.len(),
    ensures
        after_pages(m, pages, tokens).phase is Search,
        after_pages(m, pages, tokens).found == m.found + gathered(pages),
        after_pages(m, pages, tokens).blacklist == m.blacklist,
        after_pages(m, pages, tokens).next(InputView::Page { repos: last, next: None }).repos
            == survivors(m.blacklist, m.found + gathered(pages) + last),
    decreases pages.len(),
{
    if pages.len() == 0 {
        assert(m.found + gathered(pages) =~= m.found);
    } else {
        lemma_pages_gathered(m, pages.drop_last(), tokens.drop_last(), last);
        let before = after_pages(m, pages.drop_last(), tokens.drop_last());
        assert(before.found + pages.last() =~= m.found + gathered(pages));
    }
    let searching = after_pages(m, pages, tokens);
    let closing = Model {
        repos: survivors(searching.blacklist, searching.found + last),
        log: searching.seeing(last).log + unlisted(searching.found + last),
        ..searching.seeing(last)
    };
    lemma_enter_repository_keeps_repos(closing, 0);
}

} // verus!
