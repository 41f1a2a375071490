//! Live-instance registry: tracks all current instances of one kind, keyed by
//! node id. Consumers enumerate a snapshot of the live entries while dispatch
//! handlers add and remove entries; a snapshot never holds a duplicate and
//! never holds an id that was removed before the snapshot was taken.

use vstd::prelude::*;

verus! {

/// Ordered collection of distinct instance ids.
pub struct Registry {
    ids: Vec<u64>,
}

impl View for Registry {
    type V = Seq<u64>;

    closed spec fn view(&self) -> Seq<u64> {
        self.ids@
    }
}

impl Registry {
    /// Every id occurs at most once.
    pub open spec fn wf(&self) -> bool {
        self@.no_duplicates()
    }

    pub fn new() -> (r: Registry)
        ensures
            r@ == Seq::<u64>::empty(),
            r.wf(),
    {
        Registry { ids: Vec::new() }
    }

    pub fn contains(&self, id: u64) -> (r: bool)
        ensures
            r == self@.contains(id),
    {
        let n = self.ids.len();
        let mut i: usize = 0;
        while i < n
            invariant
                0 <= i <= n,
                n == self.ids@.len(),
                self@ == self.ids@,
                forall|j: int| 0 <= j < i ==> self.ids@[j] != id,
            decreases n - i,
        {
            if self.ids[i] == id {
                return true;
            }
            i += 1;
        }
        proof {
            assert(!self@.contains(id)) by {
                if self@.contains(id) {
                    let j = choose|j: int| 0 <= j < self@.len() && self@[j] == id;
                }
            }
        }
        false
    }

    /// Insert an id; inserting an id that is already present changes nothing.
    pub fn add(&mut self, id: u64)
        requires
            old(self).wf(),
        ensures
            final(self).wf(),
            old(self)@.contains(id) ==> final(self)@ == old(self)@,
            !old(self)@.contains(id) ==> final(self)@ == old(self)@.push(id),
            final(self)@.contains(id),
            forall|x: u64| x != id ==> final(self)@.contains(x) == old(self)@.contains(x),
    {
        if !self.contains(id) {
            self.ids.push(id);
            proof {
                assert(self@.drop_last() =~= old(self)@);
                assert(self@[self@.len() - 1] == id);
                lemma_push_keeps_no_duplicates(old(self)@, id);
                assert forall|x: u64| x != id implies self@.contains(x) == old(self)@.contains(
                    x,
                ) by {
                    lemma_push_membership(old(self)@, id, x);
                }
            }
        }
    }

    /// Remove an id; removing an id that is absent changes nothing.
    pub fn remove(&mut self, id: u64)
        requires
            old(self).wf(),
        ensures
            final(self).wf(),
            final(self)@ == old(self)@.remove_value(id),
            !final(self)@.contains(id),
            forall|x: u64| x != id ==> final(self)@.contains(x) == old(self)@.contains(x),
    {
        let n = self.ids.len();
        let mut i: usize = 0;
        while i < n
            invariant
                0 <= i <= n,
                n == self.ids@.len(),
                self.ids@ == old(self).ids@,
                self.ids@.no_duplicates(),
                forall|j: int| 0 <= j < i ==> self.ids@[j] != id,
            decreases n - i,
        {
            if self.ids[i] == id {
                proof {
                    old(self)@.index_of_first_ensures(id);
                }
                self.ids.remove(i);
                proof {
                    let fi = old(self)@.index_of_first(id)->Some_0;
                    assert(fi == i as int) by {
                        if fi < i as int {
                            assert(old(self)@[fi] != id);
                        }
                        if fi > i as int {
                            assert(old(self)@[i as int] != id);
                        }
                    }
                    lemma_remove_keeps_no_duplicates(old(self)@, i as int);
                    lemma_remove_value_membership(old(self)@, id);
                }
                return;
            }
            i += 1;
        }
        proof {
            assert(!old(self)@.contains(id)) by {
                if old(self)@.contains(id) {
                    let j = choose|j: int|
                        0 <= j < old(self)@.len() && old(self)@[j] == id;
                }
            }
            old(self)@.index_of_first_ensures(id);
        }
    }

    /// Snapshot of the currently live entries. The snapshot holds no
    /// duplicate and only ids that are registered at the moment it is taken.
    pub fn get_valid_contents(&self) -> (r: Vec<u64>)
        requires
            self.wf(),
        ensures
            r@ == self@,
            r@.no_duplicates(),
            forall|j: int| 0 <= j < r@.len() ==> self@.contains(#[trigger] r@[j]),
    {
        let mut out: Vec<u64> = Vec::new();
        let n = self.ids.len();
        let mut i: usize = 0;
        while i < n
            invariant
                0 <= i <= n,
                n == self.ids@.len(),
                self@ == self.ids@,
                out@ == self.ids@.subrange(0, i as int),
            decreases n - i,
        {
            out.push(self.ids[i]);
            proof {
                assert(out@ =~= self.ids@.subrange(0, i + 1));
            }
            i += 1;
        }
        proof {
            assert(out@ =~= self@);
        }
        out
    }

    /// Number of registered entries.
    pub fn len(&self) -> (r: usize)
        ensures
            r == self@.len(),
    {
        self.ids.len()
    }
}

proof fn lemma_push_keeps_no_duplicates(s: Seq<u64>, id: u64)
    requires
        s.no_duplicates(),
        !s.contains(id),
    ensures
        s.push(id).no_duplicates(),
{
    let t = s.push(id);
    assert forall|p: int, q: int| 0 <= p < q < t.len() implies t[p] != t[q] by {
        if q == t.len() - 1 {
            assert(t[p] == s[p]);
            assert(s.contains(s[p]));
        }
    }
}

proof fn lemma_push_membership(s: Seq<u64>, id: u64, x: u64)
    requires
        x != id,
    ensures
        s.push(id).contains(x) == s.contains(x),
{
    let t = s.push(id);
    if s.contains(x) {
        let j = choose|j: int| 0 <= j < s.len() && s[j] == x;
        assert(t[j] == x);
    }
    if t.contains(x) {
        let j = choose|j: int| 0 <= j < t.len() && t[j] == x;
        assert(j < s.len());
        assert(s[j] == x);
    }
}

proof fn lemma_remove_keeps_no_duplicates(s: Seq<u64>, i: int)
    requires
        s.no_duplicates(),
        0 <= i < s.len(),
    ensures
        s.remove(i).no_duplicates(),
{
    s.remove_ensures(i);
    let r = s.remove(i);
    assert forall|p: int, q: int| 0 <= p < q < r.len() implies r[p] != r[q] by {
        if q < i {
            assert(r[p] == s[p] && r[q] == s[q]);
        } else if p < i {
            assert(r[p] == s[p] && r[q] == s[q + 1]);
        } else {
            assert(r[p] == s[p + 1] && r[q] == s[q + 1]);
        }
    }
}

pub proof fn lemma_remove_value_membership(s: Seq<u64>, id: u64)
    requires
        s.no_duplicates(),
    ensures
        !s.remove_value(id).contains(id),
        forall|x: u64| x != id ==> s.remove_value(id).contains(x) == s.contains(x),
{
    s.index_of_first_ensures(id);
    if s.index_of_first(id) is Some {
        let i = s.index_of_first(id)->Some_0;
        let r = s.remove(i);
        s.remove_ensures(i);
        assert forall|x: u64| x != id implies r.contains(x) == s.contains(x) by {
            if s.contains(x) {
                let j = choose|j: int| 0 <= j < s.len() && s[j] == x;
                if j < i {
                    assert(r[j] == x);
                } else if j > i {
                    assert(r[j - 1] == x);
                }
            }
            if r.contains(x) {
                let j = choose|j: int| 0 <= j < r.len() && r[j] == x;
                if j < i {
                    assert(s[j] == x);
                } else {
                    assert(s[j + 1] == x);
                }
            }
        }
        assert(!r.contains(id)) by {
            if r.contains(id) {
                let j = choose|j: int| 0 <= j < r.len() && r[j] == id;
                if j < i {
                    assert(s[j] == id);
                } else {
                    assert(s[j + 1] == id);
                }
            }
        }
    }
}

} // verus!
