//! The mapping from file name to category that one classification yields.

use vstd::prelude::*;
use crate::text::same_text;

verus! {

/// The map that a list of (name, category) pairs stands for. Where a name
/// occurs more than once, the pair that comes last decides.
pub open spec fn entries_map(entries: Seq<(Seq<char>, Seq<char>)>) -> Map<Seq<char>, Seq<char>>
    decreases entries.len(),
{
    if entries.len() == 0 {
        Map::empty()
    } else {
        entries_map(entries.drop_last()).insert(entries.last().0, entries.last().1)
    }
}

/// The map of a list of pairs holds a name exactly when some pair has it.
pub proof fn lemma_entries_map_names(entries: Seq<(Seq<char>, Seq<char>)>, name: Seq<char>)
    ensures
        entries_map(entries).contains_key(name) <==> exists|i: int|
            0 <= i < entries.len() && (#[trigger] entries[i]).0 == name,
    decreases entries.len(),
{
    if entries.len() > 0 {
        let rest = entries.drop_last();
        lemma_entries_map_names(rest, name);
        if entries.last().0 == name {
            assert(entries[entries.len() - 1].0 == name);
        } else if entries_map(rest).contains_key(name) {
            let i = choose|i: int| 0 <= i < rest.len() && (#[trigger] rest[i]).0 == name;
            assert(entries[i].0 == name);
        } else if exists|i: int| 0 <= i < entries.len() && (#[trigger] entries[i]).0 == name {
            let i = choose|i: int| 0 <= i < entries.len() && (#[trigger] entries[i]).0 == name;
            assert(rest[i].0 == name);
        }
    }
}

/// The map of a list of pairs gives a name the category of the last pair
/// that has it.
pub proof fn lemma_entries_map_last_pair_decides(entries: Seq<(Seq<char>, Seq<char>)>, i: int)
    requires
        0 <= i < entries.len(),
        forall|j: int| i < j < entries.len() ==> (#[trigger] entries[j]).0 != entries[i].0,
    ensures
        entries_map(entries).contains_key(entries[i].0),
        entries_map(entries)[entries[i].0] == entries[i].1,
    decreases entries.len(),
{
    if i < entries.len() - 1 {
        let rest = entries.drop_last();
        assert(entries[entries.len() - 1].0 != entries[i].0);
        assert(rest[i] == entries[i]);
        assert forall|j: int| i < j < rest.len() implies (#[trigger] rest[j]).0 != rest[i].0 by {
            assert(rest[j] == entries[j]);
        }
        lemma_entries_map_last_pair_decides(rest, i);
    }
}

/// A mapping from file name to the raw category that the model gave it.
#[derive(Debug, Clone)]
pub struct CategoryMapping {
    entries: Vec<(String, String)>,
}

impl View for CategoryMapping {
    type V = Map<Seq<char>, Seq<char>>;

    closed spec fn view(&self) -> Map<Seq<char>, Seq<char>> {
        entries_map(self.entries.deep_view())
    }
}

impl CategoryMapping {
    /// The mapping without any file.
    pub fn new() -> (m: CategoryMapping)
        ensures
            m@ == Map::<Seq<char>, Seq<char>>::empty(),
    {
        let m = CategoryMapping { entries: Vec::new() };
        assert(m.entries.deep_view() =~= Seq::empty());
        m
    }

    /// The mapping that a list of (name, category) pairs stands for.
    pub fn from_entries(entries: Vec<(String, String)>) -> (m: CategoryMapping)
        ensures
            m@ == entries_map(entries.deep_view()),
    {
        CategoryMapping { entries }
    }

    /// Gives `name` the category `category`, in place of the one it had.
    pub fn insert(&mut self, name: String, category: String)
        ensures
            final(self)@ == old(self)@.insert(name@, category@),
    {
        let ghost before = self.entries.deep_view();
        self.entries.push((name, category));
        proof {
            assert(self.entries.deep_view() =~= before.push((name@, category@)));
            assert(before.push((name@, category@)).drop_last() =~= before);
        }
    }

    /// The category of `name`, if the mapping has one for it.
    pub fn get(&self, name: &str) -> (category: Option<&String>)
        ensures
            category is Some == self@.contains_key(name@),
            category matches Some(c) ==> c@ == self@[name@],
    {
        let mut i: usize = self.entries.len();
        assert(self.entries.deep_view().take(i as int) =~= self.entries.deep_view());
        while i > 0
            invariant
                i <= self.entries.len(),
                self@.contains_key(name@) == entries_map(
                    self.entries.deep_view().take(i as int),
                ).contains_key(name@),
                self@.contains_key(name@) ==> self@[name@] == entries_map(
                    self.entries.deep_view().take(i as int),
                )[name@],
            decreases i,
        {
            let ghost prefix = self.entries.deep_view().take(i as int);
            i = i - 1;
            let entry = &self.entries[i];
            proof {
                assert(prefix.drop_last() =~= self.entries.deep_view().take(i as int));
                assert(prefix.last() == self.entries.deep_view()[i as int]);
                assert(self.entries.deep_view()[i as int] == (entry.0@, entry.1@));
                assert(entries_map(prefix) == entries_map(prefix.drop_last()).insert(
                    entry.0@,
                    entry.1@,
                ));
            }
            if same_text(entry.0.as_str(), name) {
                return Some(&entry.1);
            }
        }
        proof {
            assert(self.entries.deep_view().take(0) =~= Seq::empty());
        }
        None
    }

    /// Whether the mapping has a category for `name`.
    pub fn contains(&self, name: &str) -> (found: bool)
        ensures
            found == self@.contains_key(name@),
    {
        self.get(name).is_some()
    }
}

} // verus!
