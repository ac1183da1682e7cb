//! A set of tags.

use vstd::prelude::*;

verus! {

/// The views of a run of names.
pub open spec fn name_views(names: Seq<String>) -> Seq<Seq<char>> {
    Seq::new(names.len(), |i: int| names[i]@)
}

/// A set of tags: unordered, and no tag twice.
#[derive(Debug)]
pub struct Tags {
    names: Vec<String>,
}

impl View for Tags {
    type V = Set<Seq<char>>;

    closed spec fn view(&self) -> Set<Seq<char>> {
        name_views(self.names@).to_set()
    }
}

impl Tags {
    /// No tag is held twice.
    pub closed spec fn wf(&self) -> bool {
        name_views(self.names@).no_duplicates()
    }

    /// The empty set.
    pub fn new() -> (tags: Tags)
        ensures
            tags.wf(),
            tags@ == Set::<Seq<char>>::empty(),
    {
        let tags = Tags { names: Vec::new() };
        assert(name_views(tags.names@) =~= Seq::<Seq<char>>::empty());
        assert(tags@ =~= Set::<Seq<char>>::empty());
        tags
    }

    /// Adds a tag; a tag that is in the set already changes nothing.
    pub fn insert(&mut self, tag: String)
        requires
            old(self).wf(),
        ensures
            final(self).wf(),
            final(self)@ == old(self)@.insert(tag@),
    {
        let at = locate_name(&self.names, &tag);
        let ghost before = name_views(self.names@);
        if at < self.names.len() {
            assert(before[at as int] == tag@);
            assert(before.to_set() =~= before.to_set().insert(tag@));
        } else {
            self.names.push(tag);
            let ghost after = name_views(self.names@);
            assert(after =~= before.push(tag@));
            assert(after.to_set() =~= before.to_set().insert(tag@)) by {
                assert forall|name: Seq<char>| after.to_set().contains(name) implies before.to_set().insert(
                    tag@,
                ).contains(name) by {
                    let i = choose|i: int| 0 <= i < after.len() && after[i] == name;
                    if i < before.len() {
                        assert(before[i] == name);
                    }
                }
                assert forall|name: Seq<char>|
                    before.to_set().insert(tag@).contains(name) implies after.to_set().contains(
                    name,
                ) by {
                    if name == tag@ {
                        assert(after[before.len() as int] == name);
                    } else {
                        let i = choose|i: int| 0 <= i < before.len() && before[i] == name;
                        assert(after[i] == name);
                    }
                }
            }
        }
    }

    /// Removes a tag; a tag that is not in the set changes nothing.
    pub fn remove(&mut self, tag: &String)
        requires
            old(self).wf(),
        ensures
            final(self).wf(),
            final(self)@ == old(self)@.remove(tag@),
    {
        let at = locate_name(&self.names, tag);
        let ghost before = name_views(self.names@);
        if at < self.names.len() {
            let _ = self.names.remove(at);
            let ghost after = name_views(self.names@);
            assert(after =~= before.remove(at as int));
            assert(after.to_set() =~= before.to_set().remove(tag@)) by {
                assert forall|name: Seq<char>| after.to_set().contains(name) implies before.to_set().remove(
                    tag@,
                ).contains(name) by {
                    let i = choose|i: int| 0 <= i < after.len() && after[i] == name;
                    assert(before[at as int] == tag@);
                    if i < at {
                        assert(before[i] == name);
                        assert(before[i] != before[at as int]);
                    } else {
                        assert(before[i + 1] == name);
                        assert(before[i + 1] != before[at as int]);
                    }
                }
                assert forall|name: Seq<char>|
                    before.to_set().remove(tag@).contains(name) implies after.to_set().contains(
                    name,
                ) by {
                    let i = choose|i: int| 0 <= i < before.len() && before[i] == name;
                    if i < at {
                        assert(after[i] == name);
                    } else {
                        assert(after[i - 1] == name);
                    }
                }
            }
        } else {
            assert forall|i: int| 0 <= i < before.len() implies before[i] != tag@ by {
                assert(self.names@[i]@ != tag@);
            }
            assert(before.to_set() =~= before.to_set().remove(tag@));
        }
    }

    /// The tags, each once, in the order in which they were added.
    pub fn inner(&self) -> (names: &Vec<String>)
        ensures
            name_views(names@).to_set() == self@,
            self.wf() ==> name_views(names@).no_duplicates(),
    {
        &self.names
    }

    /// Whether the set holds the tag.
    pub fn contains(&self, tag: &String) -> (held: bool)
        ensures
            held == self@.contains(tag@),
    {
        let at = locate_name(&self.names, tag);
        let ghost views = name_views(self.names@);
        if at < self.names.len() {
            assert(views[at as int] == tag@);
            true
        } else {
            assert forall|i: int| 0 <= i < views.len() implies views[i] != tag@ by {
                assert(self.names@[i]@ != tag@);
            }
            false
        }
    }

    /// Whether the set is empty.
    pub fn is_empty(&self) -> (empty: bool)
        requires
            self.wf(),
        ensures
            empty == (self@.len() == 0),
    {
        proof {
            name_views(self.names@).unique_seq_to_set();
        }
        self.names.len() == 0
    }

    /// The number of tags.
    pub fn len(&self) -> (count: usize)
        requires
            self.wf(),
        ensures
            count == self@.len(),
    {
        proof {
            name_views(self.names@).unique_seq_to_set();
        }
        self.names.len()
    }
}

/// Position of the first name that equals `name`; the length if none does.
pub fn locate_name(names: &Vec<String>, name: &String) -> (at: usize)
    ensures
        at <= names@.len(),
        at < names@.len() ==> names@[at as int]@ == name@,
        forall|j: int| 0 <= j < at ==> (#[trigger] names@[j])@ != name@,
{
    let mut i: usize = 0;
    while i < names.len()
        invariant
            i <= names@.len(),
            forall|j: int| 0 <= j < i ==> (#[trigger] names@[j])@ != name@,
        decreases names@.len() - i,
    {
        if names[i] == *name {
            return i;
        }
        i += 1;
    }
    i
}

} // verus!
