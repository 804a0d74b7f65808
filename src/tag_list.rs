//! Node tags.
use vstd::prelude::*;

verus! {

/// Unique ID of a node tag; never zero.
#[derive(Clone, Copy, PartialEq, Eq, Structural, Debug, Hash)]
pub struct TagID {
    id: i64,
}

impl TagID {
    /// The tag's number.
    pub closed spec fn view(self) -> i64 {
        self.id
    }

    /// A tag with the given number; `None` for zero, which is not a valid tag.
    pub fn new(id: i64) -> (r: Option<TagID>)
        ensures
            r is Some == (id != 0),
            r matches Some(t) ==> t@ == id,
    {
        if id == 0 { None } else { Some(TagID { id }) }
    }

    /// The tag's number.
    pub fn get(self) -> (r: i64)
        ensures
            r == self@,
    {
        self.id
    }
}

/// Node parameter assigning a new set of tags to a node. Each tag is held once.
#[derive(Debug)]
pub struct TagList {
    tags: Vec<TagID>,
}

impl TagList {
    /// No tag is held twice.
    pub closed spec fn wf(&self) -> bool {
        self.tags@.no_duplicates()
    }

    /// The tags, as a set.
    pub closed spec fn view(&self) -> Set<TagID> {
        self.tags@.to_set()
    }

    /// An empty list.
    pub fn new() -> (r: Self)
        ensures
            r.wf(),
            r@ == Set::<TagID>::empty(),
    {
        let r = TagList { tags: Vec::new() };
        assert(r@ =~= Set::<TagID>::empty());
        r
    }

    /// Number of tags.
    pub fn len(&self) -> (r: usize)
        requires
            self.wf(),
        ensures
            r == self@.len(),
    {
        proof { self.tags@.unique_seq_to_set(); }
        self.tags.len()
    }

    /// True if the tag is in the list.
    pub fn contains(&self, tag: TagID) -> (r: bool)
        ensures
            r == self@.contains(tag),
    {
        let mut i: usize = 0;
        while i < self.tags.len()
            invariant
                i <= self.tags@.len(),
                forall|j: int| 0 <= j < i ==> self.tags@[j] != tag,
            decreases self.tags@.len() - i,
        {
            if self.tags[i] == tag {
                assert(self.tags@.contains(self.tags@[i as int]));
                return true;
            }
            i = i + 1;
        }
        false
    }

    /// Add a tag. Returns false, changing nothing, if it is already there.
    pub fn insert(&mut self, tag: TagID) -> (r: bool)
        requires
            old(self).wf(),
        ensures
            final(self).wf(),
            r == !old(self)@.contains(tag),
            final(self)@ == old(self)@.insert(tag),
    {
        if self.contains(tag) {
            assert(self@.insert(tag) =~= self@);
            return false;
        }
        let ghost before = self.tags@;
        self.tags.push(tag);
        proof {
            assert(self.tags@ == before.push(tag));
            assert forall|i: int, j: int| 0 <= i < j < self.tags@.len() implies self.tags@[i] != self.tags@[j] by {
                if j == before.len() {
                    assert(before.contains(before[i]));
                }
            }
            before.lemma_push_to_set_commute(tag);
        }
        true
    }
}

} // verus!
