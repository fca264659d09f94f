//! Names that are told apart without regard to ASCII case.
use vstd::hash_set::StringHashSet;
use vstd::prelude::*;
use vstd::string::*;

use crate::text;

verus! {

/// The names met so far, kept as a hash set of their lower-case forms.
pub struct NameSet {
    lowered: StringHashSet,
    names: Ghost<Seq<Seq<char>>>,
}

impl View for NameSet {
    type V = Seq<Seq<char>>;

    /// The names, in the order in which they came.
    closed spec fn view(&self) -> Seq<Seq<char>> {
        self.names@
    }
}

impl NameSet {
    /// The hash set holds the lower-case forms of the names, and nothing else.
    pub closed spec fn wf(self) -> bool {
        forall|lowered: Seq<char>| #[trigger]
            self.lowered@.contains(lowered) <==> exists|j: int|
                0 <= j < self.names@.len() && text::lowercase(#[trigger] self.names@[j]) == lowered
    }

    /// The set without names.
    pub fn new() -> (names: Self)
        ensures
            names.wf(),
            names@ == Seq::<Seq<char>>::empty(),
    {
        NameSet { lowered: StringHashSet::new(), names: Ghost(Seq::empty()) }
    }

    /// Adds a name, and says whether it is new.
    pub fn insert(&mut self, name: &str) -> (new: bool)
        requires
            old(self).wf(),
        ensures
            final(self).wf(),
            final(self)@ == old(self)@.push(name@),
            new == !text::listed_ignoring_case(old(self)@, name@),
    {
        let ghost before = self.names@;
        let ghost set = self.lowered@;
        let new = self.lowered.insert(text::to_lowercase(name));
        self.names = Ghost(before.push(name@));
        proof {
            let after = before.push(name@);
            assert(after[before.len() as int] == name@);
            assert forall|lowered: Seq<char>| #[trigger]
                self.lowered@.contains(lowered) <==> exists|j: int|
                    0 <= j < after.len() && text::lowercase(#[trigger] after[j]) == lowered by {
                if set.contains(lowered) {
                    let j = choose|j: int|
                        0 <= j < before.len() && text::lowercase(#[trigger] before[j]) == lowered;
                    assert(after[j] == before[j]);
                }
                if exists|j: int|
                    0 <= j < after.len() && text::lowercase(#[trigger] after[j]) == lowered {
                    let j = choose|j: int|
                        0 <= j < after.len() && text::lowercase(#[trigger] after[j]) == lowered;
                    if j < before.len() {
                        assert(before[j] == after[j]);
                        assert(set.contains(lowered));
                    }
                }
            }
            assert(self.names@ == after);
            assert(self.wf());
            assert(set.contains(text::lowercase(name@)) == text::listed_ignoring_case(
                before,
                name@,
            ));
        }
        new
    }

    /// Whether a name was met.
    pub fn has(&self, name: &str) -> (result: bool)
        requires
            self.wf(),
        ensures
            result == text::listed_ignoring_case(self@, name@),
    {
        assert(self.lowered@.contains(text::lowercase(name@)) == text::listed_ignoring_case(
            self.names@,
            name@,
        ));
        self.lowered.contains(text::to_lowercase(name).as_str())
    }

    /// The set of the names of a list.
    pub fn of(list: &[String]) -> (names: Self)
        ensures
            names.wf(),
            names@ == text::texts(list@),
    {
        let mut names = NameSet::new();
        let mut i: usize = 0;
        assert(text::texts(list@.take(0)) =~= Seq::<Seq<char>>::empty());
        while i < list.len()
            invariant
                i <= list.len(),
                names.wf(),
                names@ == text::texts(list@.take(i as int)),
            decreases list.len() - i,
        {
            names.insert(list[i].as_str());
            assert(text::texts(list@.take(i + 1)) =~= text::texts(list@.take(i as int)).push(
                list@[i as int]@,
            ));
            i += 1;
        }
        assert(list@.take(list@.len() as int) =~= list@);
        names
    }
}

} // verus!
