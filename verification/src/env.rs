//! Environments: values bound to ids.
use vstd::prelude::*;
use crate::value::{self, Value, ValueView};

verus! {

pub struct Env<'a> {
    pub store: Vec<(u32, Value<'a>)>,
}

impl<'a> View for Env<'a> {
    type V = Map<u32, ValueView>;

    open spec fn view(&self) -> Map<u32, ValueView> {
        value::bindings(self.store@)
    }
}

/// An id that does not occur from `i` on has the binding that the first `i`
/// entries give it.
proof fn lemma_last_entry_counts(store: Seq<(u32, Value)>, i: int, id: u32)
    requires
        0 <= i <= store.len(),
        forall|j: int| i <= j < store.len() ==> (#[trigger] store[j]).0 != id,
    ensures
        value::bindings(store).dom().contains(id) == value::bindings(store.take(i)).dom().contains(id),
        value::bindings(store).dom().contains(id) ==> value::bindings(store)[id]
            == value::bindings(store.take(i))[id],
    decreases store.len(),
{
    if i == store.len() {
        assert(store.take(i) =~= store);
    } else {
        let front = store.drop_last();
        assert(front.take(i) =~= store.take(i));
        assert forall|j: int| i <= j < front.len() implies (#[trigger] front[j]).0 != id by {
            assert(store[j].0 != id);
        }
        lemma_last_entry_counts(front, i, id);
        assert(store.last().0 != id);
    }
}

/// Stores with the same ids and the same values bind the same.
proof fn lemma_same_entries(a: Seq<(u32, Value)>, b: Seq<(u32, Value)>)
    requires
        a.len() == b.len(),
        forall|j: int|
            0 <= j < a.len() ==> (#[trigger] a[j]).0 == b[j].0 && a[j].1@ == b[j].1@,
    ensures
        value::bindings(a) == value::bindings(b),
    decreases a.len(),
{
    if a.len() > 0 {
        let n = a.len() - 1;
        assert(a[n].0 == b[n].0 && a[n].1@ == b[n].1@);
        assert forall|j: int| 0 <= j < a.drop_last().len() implies (#[trigger] a.drop_last()[j]).0
            == b.drop_last()[j].0 && a.drop_last()[j].1@ == b.drop_last()[j].1@ by {
            assert(a[j].0 == b[j].0);
        }
        lemma_same_entries(a.drop_last(), b.drop_last());
    }
}

impl<'a> Env<'a> {
    /// The environment without bindings.
    pub fn empty() -> (r: Env<'a>)
        ensures
            r@ == Map::<u32, ValueView>::empty(),
    {
        Env { store: Vec::new() }
    }

    /// The value bound to an id.
    pub fn get(&self, id: u32) -> (r: Option<&Value<'a>>)
        ensures
            match r {
                Some(v) => self@.dom().contains(id) && v@ == self@[id],
                None => !self@.dom().contains(id),
            },
    {
        let mut i: usize = self.store.len();
        while i > 0
            invariant
                i <= self.store@.len(),
                forall|j: int| i <= j < self.store@.len() ==> (#[trigger] self.store@[j]).0 != id,
            decreases i,
        {
            i -= 1;
            if self.store[i].0 == id {
                proof {
                    lemma_last_entry_counts(self.store@, i + 1, id);
                    assert(self.store@.take(i + 1).drop_last() =~= self.store@.take(i as int));
                }
                return Some(&self.store[i].1);
            }
        }
        proof {
            lemma_last_entry_counts(self.store@, 0, id);
        }
        None
    }

    /// Binds an id to a value. An earlier binding of the id is shadowed.
    pub fn insert(&mut self, id: u32, v: Value<'a>)
        ensures
            final(self)@ == old(self)@.insert(id, v@),
    {
        let ghost before = self.store@;
        self.store.push((id, v));
        assert(self.store@.drop_last() =~= before);
    }

    /// A copy of this environment.
    pub fn duplicate(&self) -> (r: Env<'a>)
        ensures
            r@ == self@,
        decreases self,
    {
        let mut out: Vec<(u32, Value<'a>)> = Vec::new();
        let mut i: usize = 0;
        while i < self.store.len()
            invariant
                i <= self.store@.len(),
                out@.len() == i,
                forall|j: int|
                    0 <= j < i ==> (#[trigger] out@[j]).0 == self.store@[j].0 && out@[j].1@
                        == self.store@[j].1@,
            decreases self.store@.len() - i,
        {
            let v = self.store[i].1.duplicate();
            out.push((self.store[i].0, v));
            i += 1;
        }
        proof {
            lemma_same_entries(out@, self.store@);
        }
        Env { store: out }
    }
}

} // verus!
