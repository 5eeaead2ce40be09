//! What a run emits: for each package its record, for each category the
//! records of its packages by name.

use vstd::prelude::*;
use crate::manifest::DeclarationView;
use crate::pin::{SourcePin, SourcePinView};

verus! {

/// The record of one package: what its manifest declares and where its source
/// is pinned.
#[derive(Debug)]
pub struct PackageOutput {
    pub name: String,
    pub main: Option<String>,
    pub source: SourcePin,
}

/// The mathematical value of a [`PackageOutput`].
pub struct PackageOutputView {
    pub name: Seq<char>,
    pub main: Option<Seq<char>>,
    pub source: SourcePinView,
}

impl View for PackageOutput {
    type V = PackageOutputView;

    open spec fn view(&self) -> PackageOutputView {
        PackageOutputView { name: self.name@, main: self.main.deep_view(), source: self.source@ }
    }
}

impl DeepView for PackageOutput {
    type V = PackageOutputView;

    open spec fn deep_view(&self) -> PackageOutputView {
        self@
    }
}

/// The record of a declaration whose source is pinned by `pin`.
pub open spec fn output_of(declaration: DeclarationView, pin: SourcePinView) -> PackageOutputView {
    PackageOutputView { name: declaration.name, main: declaration.main, source: pin }
}

/// The records of one category, one for each package name. A record that
/// comes in under a name that is taken replaces the one that was there.
#[derive(Debug)]
pub struct OutputMap {
    records: Vec<PackageOutput>,
}

impl OutputMap {
    /// Where the record named `name` stands, if it stands among the records.
    spec fn position(&self, name: Seq<char>) -> int {
        choose|i: int| 0 <= i < self.records.len() && self.records[i].name@ == name
    }

    /// No name stands twice among the records.
    pub closed spec fn wf(&self) -> bool {
        forall|i: int, j: int|
            0 <= i < j < self.records.len() ==> self.records[i].name@ != self.records[j].name@
    }

    /// The records as a map from package names.
    pub closed spec fn view(&self) -> Map<Seq<char>, PackageOutputView> {
        Map::new(
            |name: Seq<char>|
                exists|i: int| 0 <= i < self.records.len() && self.records[i].name@ == name,
            |name: Seq<char>| self.records[self.position(name)]@,
        )
    }

    /// What the map says of the record at `i`.
    proof fn lemma_record(&self, i: int)
        requires
            self.wf(),
            0 <= i < self.records.len(),
        ensures
            self@.contains_key(self.records[i].name@),
            self@[self.records[i].name@] == self.records[i]@,
    {
        let name = self.records[i].name@;
        let j = self.position(name);
        assert(0 <= j < self.records.len() && self.records[j].name@ == name);
        assert(j == i);
    }

    /// A map without records.
    pub fn new() -> (map: OutputMap)
        ensures
            map.wf(),
            map@ == Map::<Seq<char>, PackageOutputView>::empty(),
    {
        let map = OutputMap { records: Vec::new() };
        assert(map@ =~= Map::<Seq<char>, PackageOutputView>::empty());
        map
    }

    /// The record of the package `name`, if there is one.
    pub fn get(&self, name: &str) -> (found: Option<&PackageOutput>)
        requires
            self.wf(),
        ensures
            match found {
                Some(record) => self@.contains_key(name@) && self@[name@] == record@,
                None => !self@.contains_key(name@),
            },
    {
        match self.find(name) {
            Some(i) => {
                proof {
                    self.lemma_record(i as int);
                }
                Some(&self.records[i])
            },
            None => None,
        }
    }

    /// The index of the record named `name`.
    fn find(&self, name: &str) -> (found: Option<usize>)
        ensures
            match found {
                Some(i) => i < self.records.len() && self.records[i as int].name@ == name@,
                None => forall|k: int|
                    0 <= k < self.records.len() ==> self.records[k].name@ != name@,
            },
    {
        let wanted = name.to_owned();
        let mut i: usize = 0;
        while i < self.records.len()
            invariant
                i <= self.records.len(),
                wanted@ == name@,
                forall|k: int| 0 <= k < i ==> self.records[k].name@ != name@,
            decreases self.records.len() - i,
        {
            if self.records[i].name == wanted {
                return Some(i);
            }
            i += 1;
        }
        None
    }

    /// Puts `record` under its name; a record that stood under that name is
    /// replaced.
    pub fn insert(&mut self, record: PackageOutput)
        requires
            old(self).wf(),
        ensures
            final(self).wf(),
            final(self)@ == old(self)@.insert(record.name@, record@),
    {
        let ghost before = *self;
        let ghost n = before.records.len() as int;
        match self.find(record.name.as_str()) {
            Some(at) => {
                self.records[at] = record;
                proof {
                    assert(forall|i: int|
                        0 <= i < n && i != at ==> self.records[i] == before.records[i]);
                    assert(forall|i: int|
                        0 <= i < n ==> self.records[i].name@ == before.records[i].name@);
                    assert(self.wf());
                    assert forall|k: Seq<char>| #[trigger]
                        self@.contains_key(k) == before@.insert(record.name@, record@).contains_key(
                            k,
                        ) by {
                        if before@.contains_key(k) {
                            let i = before.position(k);
                            assert(self.records[i].name@ == k);
                        }
                        if self@.contains_key(k) {
                            let i = self.position(k);
                            assert(before.records[i].name@ == k);
                        }
                    }
                    assert forall|k: Seq<char>| #[trigger] self@.contains_key(k) implies self@[k]
                        == before@.insert(record.name@, record@)[k] by {
                        let i = self.position(k);
                        self.lemma_record(i);
                        before.lemma_record(i);
                    }
                    assert(self@ =~= before@.insert(record.name@, record@));
                }
            },
            None => {
                self.records.push(record);
                proof {
                    assert(forall|i: int| 0 <= i < n ==> self.records[i] == before.records[i]);
                    assert(self.wf());
                    assert forall|k: Seq<char>| #[trigger]
                        self@.contains_key(k) == before@.insert(record.name@, record@).contains_key(
                            k,
                        ) by {
                        if before@.contains_key(k) {
                            let i = before.position(k);
                            assert(self.records[i].name@ == k);
                        }
                        if k == record.name@ {
                            assert(self.records[n].name@ == k);
                        }
                    }
                    assert forall|k: Seq<char>| #[trigger] self@.contains_key(k) implies self@[k]
                        == before@.insert(record.name@, record@)[k] by {
                        let i = self.position(k);
                        self.lemma_record(i);
                        if i < n {
                            before.lemma_record(i);
                        }
                    }
                    assert(self@ =~= before@.insert(record.name@, record@));
                }
            },
        }
    }

    /// Hands the records over and leaves the map without any.
    pub fn take(&mut self) -> (taken: OutputMap)
        requires
            old(self).wf(),
        ensures
            taken.wf(),
            taken@ == old(self)@,
            final(self).wf(),
            final(self)@ == Map::<Seq<char>, PackageOutputView>::empty(),
    {
        let mut records: Vec<PackageOutput> = Vec::new();
        core::mem::swap(&mut self.records, &mut records);
        let taken = OutputMap { records };
        assert(self@ =~= Map::<Seq<char>, PackageOutputView>::empty());
        assert(taken@ =~= old(self)@);
        taken
    }

    /// The records, each under a name of its own, in no stated order.
    pub fn records(&self) -> (records: &Vec<PackageOutput>)
        requires
            self.wf(),
        ensures
            forall|i: int|
                0 <= i < records.len() ==> self@.contains_key(#[trigger] records[i].name@)
                    && self@[records[i].name@] == records[i]@,
            forall|name: Seq<char>| #[trigger]
                self@.contains_key(name) ==> exists|i: int|
                    0 <= i < records.len() && #[trigger] records[i].name@ == name,
            forall|i: int, j: int|
                0 <= i < j < records.len() ==> records[i].name@ != records[j].name@,
    {
        proof {
            assert forall|i: int| 0 <= i < self.records.len() implies self@.contains_key(
                #[trigger] self.records[i].name@,
            ) && self@[self.records[i].name@] == self.records[i]@ by {
                self.lemma_record(i);
            }
        }
        &self.records
    }
}

/// The records of one category under the category's label.
#[derive(Debug)]
pub struct CategoryOutput {
    pub label: String,
    pub packages: OutputMap,
}

/// The mathematical value of a [`CategoryOutput`].
pub struct CategoryOutputView {
    pub label: Seq<char>,
    pub packages: Map<Seq<char>, PackageOutputView>,
}

impl View for CategoryOutput {
    type V = CategoryOutputView;

    open spec fn view(&self) -> CategoryOutputView {
        CategoryOutputView { label: self.label@, packages: self.packages@ }
    }
}

impl DeepView for CategoryOutput {
    type V = CategoryOutputView;

    open spec fn deep_view(&self) -> CategoryOutputView {
        self@
    }
}

/// Of two records that come in under one name, the later one stays: whatever
/// the map held and whatever came between them under other names.
pub proof fn lemma_last_write_wins(
    map: Map<Seq<char>, PackageOutputView>,
    first: PackageOutputView,
    second: PackageOutputView,
)
    requires
        first.name == second.name,
    ensures
        map.insert(first.name, first).insert(second.name, second) == map.insert(
            second.name,
            second,
        ),
        map.insert(first.name, first).insert(second.name, second)[first.name] == second,
{
    assert(map.insert(first.name, first).insert(second.name, second) =~= map.insert(
        second.name,
        second,
    ));
}

} // verus!
