use vstd::prelude::*;

verus! {

/// Compares two string slices character by character.
pub fn str_eq(a: &str, b: &str) -> (r: bool)
    ensures
        r == (a@ == b@),
{
    let a_len = a.unicode_len();
    let b_len = b.unicode_len();
    if a_len != b_len {
        assert(a@ != b@) by {
            assert(a@.len() != b@.len());
        }
        return false;
    }
    let mut i: usize = 0;
    while i < a_len
        invariant
            a_len == a@.len(),
            b_len == b@.len(),
            a_len == b_len,
            i <= a_len,
            forall|k: int| 0 <= k < i ==> a@[k] == b@[k],
        decreases a_len - i,
    {
        if a.get_char(i) != b.get_char(i) {
            assert(a@ != b@) by {
                assert(a@[i as int] != b@[i as int]);
            }
            return false;
        }
        i += 1;
    }
    proof {
        assert(a@ =~= b@);
    }
    true
}

/// One named list in the store. Index 0 of `items` is the producing end
/// (the head); the last index is the consuming end (the tail).
pub struct NamedQueue {
    pub name: String,
    pub items: Vec<String>,
}

/// A message delivered by a pop: the queue it came from and the raw
/// payload text.
pub struct Delivery {
    pub queue: String,
    pub payload: String,
}

/// `i` is the position of the first occurrence of `x` in `s`.
pub open spec fn is_first_hit(s: Seq<Seq<char>>, x: Seq<char>, i: int) -> bool {
    &&& 0 <= i < s.len()
    &&& s[i] == x
    &&& forall|k: int| 0 <= k < i ==> s[k] != x
}

/// An in-process list-oriented store with the shape the queue layer
/// expects from its backend: named lists supporting push-to-head,
/// pop-from-tail across several lists, and removal of one value.
/// An absent list is indistinguishable from an empty one, as it is in
/// list-oriented stores of this kind.
pub struct MemoryStore {
    pub queues: Vec<NamedQueue>,
}

impl MemoryStore {
    /// The names of the lists present, in creation order.
    pub open spec fn names(self) -> Seq<Seq<char>> {
        self.queues@.map_values(|q: NamedQueue| q.name@)
    }

    /// List names are pairwise distinct.
    pub open spec fn wf(self) -> bool {
        forall|i: int, j: int|
            0 <= i < j < self.names().len() ==> self.names()[i] != self.names()[j]
    }

    pub open spec fn has_list(self, name: Seq<char>) -> bool {
        self.names().contains(name)
    }

    pub open spec fn list_index(self, name: Seq<char>) -> int {
        choose|i: int| 0 <= i < self.names().len() && self.names()[i] == name
    }

    /// Contents of the named list, head first; an absent list reads as
    /// empty.
    pub open spec fn contents(self, name: Seq<char>) -> Seq<Seq<char>> {
        if self.has_list(name) {
            self.queues@[self.list_index(name)].items.deep_view()
        } else {
            Seq::empty()
        }
    }

    /// A store with no lists.
    pub fn new() -> (r: MemoryStore)
        ensures
            r.wf(),
            r.names() == Seq::<Seq<char>>::empty(),
            forall|n: Seq<char>| r.contents(n) == Seq::<Seq<char>>::empty(),
    {
        let r = MemoryStore { queues: Vec::new() };
        proof {
            assert(r.names() =~= Seq::<Seq<char>>::empty());
            assert(forall|n: Seq<char>| !r.has_list(n));
        }
        r
    }

    /// Index of the list with this name, if present.
    fn find_list(&self, name: &str) -> (r: Option<usize>)
        requires
            self.wf(),
        ensures
            match r {
                Some(i) => self.has_list(name@) && 0 <= i < self.queues@.len()
                    && self.list_index(name@) == i as int,
                None => !self.has_list(name@),
            },
    {
        let n = self.queues.len();
        let mut i: usize = 0;
        while i < n
            invariant
                self.wf(),
                n == self.queues@.len(),
                i <= n,
                forall|k: int| 0 <= k < i ==> self.names()[k] != name@,
            decreases n - i,
        {
            if str_eq(self.queues[i].name.as_str(), name) {
                proof {
                    assert(self.names()[i as int] == name@);
                    assert(self.has_list(name@));
                    let j = self.list_index(name@);
                    assert(0 <= j < self.names().len() && self.names()[j] == name@);
                    if j != i as int {
                        assert(self.names()[j] == self.names()[i as int]);
                        assert(false);
                    }
                }
                return Some(i);
            }
            i += 1;
        }
        proof {
            if self.has_list(name@) {
                let j = choose|j: int| 0 <= j < self.names().len() && self.names()[j] == name@;
                assert(self.names()[j] != name@);
            }
        }
        None
    }

    /// Appends a payload at the producing end of the named list, creating
    /// the list if it is absent. Every other list is untouched.
    pub fn push_head(&mut self, name: &str, payload: &str)
        requires
            old(self).wf(),
        ensures
            final(self).wf(),
            final(self).contents(name@) == seq![payload@] + old(self).contents(name@),
            forall|n: Seq<char>| n != name@ ==> final(self).contents(n) == old(self).contents(n),
            forall|n: Seq<char>| final(self).has_list(n) <==> (old(self).has_list(n) || n == name@),
    {
        let found = self.find_list(name);
        match found {
            Some(i) => {
                let ghost pre = *self;
                self.queues[i].items.insert(0, payload.to_owned());
                proof {
                    assert(self.names() =~= pre.names());
                    assert forall|n: Seq<char>| n != name@ implies
                        self.contents(n) == pre.contents(n) by {
                        if pre.has_list(n) {
                            let j = pre.list_index(n);
                            assert(pre.names()[j] == n);
                            assert(self.has_list(n));
                            let j2 = self.list_index(n);
                            assert(self.names()[j2] == n);
                            assert(j2 == j) by {
                                if j2 != j {
                                    assert(self.names()[j2] == self.names()[j]);
                                    assert(false);
                                }
                            }
                            assert(j != i as int) by {
                                assert(pre.names()[i as int] == name@);
                            }
                            assert(self.queues@[j] == pre.queues@[j]);
                        } else {
                            assert(!self.has_list(n));
                        }
                    }
                    let i2 = self.list_index(name@);
                    assert(self.names()[i as int] == name@);
                    assert(i2 == i as int) by {
                        if i2 != i as int {
                            assert(self.names()[i2] == self.names()[i as int]);
                            assert(false);
                        }
                    }
                    assert(self.queues@[i as int].items@ ==
                        pre.queues@[i as int].items@.insert(0, self.queues@[i as int].items@[0]));
                    assert(self.contents(name@) =~= seq![payload@] + pre.contents(name@)) by {
                        let new_items = self.queues@[i as int].items;
                        let old_items = pre.queues@[i as int].items;
                        assert(new_items@.len() == old_items@.len() + 1);
                        assert(new_items@[0]@ == payload@);
                        assert(forall|k: int| 0 <= k < old_items@.len() ==>
                            new_items@[k + 1] == old_items@[k]);
                        assert(forall|k: int| 0 <= k < old_items@.len() ==>
                            new_items.deep_view()[k + 1] == old_items.deep_view()[k]);
                    }
                }
            },
            None => {
                let ghost pre = *self;
                let mut items: Vec<String> = Vec::new();
                items.push(payload.to_owned());
                let q = NamedQueue { name: name.to_owned(), items };
                self.queues.push(q);
                proof {
                    let m = pre.names().len() as int;
                    assert(self.names() =~= pre.names().push(name@));
                    assert(self.wf()) by {
                        assert(forall|k: int| 0 <= k < m ==> self.names()[k] == pre.names()[k]);
                        assert(self.names()[m] == name@);
                        assert(forall|k: int| 0 <= k < m ==> pre.names()[k] != name@);
                    }
                    assert(self.has_list(name@)) by {
                        assert(self.names()[m] == name@);
                    }
                    let i2 = self.list_index(name@);
                    assert(i2 == m) by {
                        if i2 != m {
                            assert(self.names()[i2] == name@);
                            assert(pre.names()[i2] == name@);
                        }
                    }
                    assert(self.contents(name@) =~= seq![payload@] + pre.contents(name@)) by {
                        assert(self.queues@[m].items@.len() == 1);
                        assert(self.queues@[m].items@[0]@ == payload@);
                        assert(pre.contents(name@) == Seq::<Seq<char>>::empty());
                    }
                    assert forall|n: Seq<char>| n != name@ implies
                        self.contents(n) == pre.contents(n) by {
                        if pre.has_list(n) {
                            let j = pre.list_index(n);
                            assert(pre.names()[j] == n);
                            assert(self.names()[j] == n);
                            assert(self.has_list(n));
                            let j2 = self.list_index(n);
                            assert(j2 == j) by {
                                if j2 != j {
                                    assert(self.names()[j2] == self.names()[j]);
                                    assert(false);
                                }
                            }
                            assert(self.queues@[j] == pre.queues@[j]);
                        } else {
                            assert(!self.has_list(n)) by {
                                if self.has_list(n) {
                                    let j = choose|j: int|
                                        0 <= j < self.names().len() && self.names()[j] == n;
                                    assert(j == m || pre.names()[j] == n);
                                }
                            }
                        }
                    }
                    assert forall|n: Seq<char>|
                        self.has_list(n) <==> (pre.has_list(n) || n == name@) by {
                        if self.has_list(n) {
                            let j = choose|j: int|
                                0 <= j < self.names().len() && self.names()[j] == n;
                            if j != m {
                                assert(pre.names()[j] == n);
                            }
                        }
                        if pre.has_list(n) {
                            let j = choose|j: int|
                                0 <= j < pre.names().len() && pre.names()[j] == n;
                            assert(self.names()[j] == n);
                        }
                    }
                }
            },
        }
    }

    /// Length of the named list; 0 for an absent list.
    pub fn list_len(&self, name: &str) -> (r: usize)
        requires
            self.wf(),
        ensures
            r == self.contents(name@).len(),
    {
        let found = self.find_list(name);
        match found {
            Some(i) => self.queues[i].items.len(),
            None => 0,
        }
    }

    /// Takes the tail message of the first listed name whose list is not
    /// empty. Returns None, and changes nothing, when every named list is
    /// empty. This mirrors a pop across several lists where ties resolve
    /// in the order the names were listed.
    pub fn pop_any(&mut self, names: &Vec<String>) -> (r: Option<Delivery>)
        requires
            old(self).wf(),
        ensures
            final(self).wf(),
            match r {
                None => {
                    &&& *final(self) == *old(self)
                    &&& forall|k: int| 0 <= k < names@.len()
                        ==> old(self).contents(names@[k]@).len() == 0
                },
                Some(d) => {
                    &&& exists|j: int| {
                        &&& 0 <= j < names@.len()
                        &&& d.queue@ == names@[j]@
                        &&& forall|k: int| 0 <= k < j ==> old(self).contents(names@[k]@).len() == 0
                    }
                    &&& old(self).contents(d.queue@).len() > 0
                    &&& d.payload@ == old(self).contents(d.queue@).last()
                    &&& final(self).contents(d.queue@) == old(self).contents(d.queue@).drop_last()
                    &&& forall|n: Seq<char>| n != d.queue@
                        ==> final(self).contents(n) == old(self).contents(n)
                    &&& forall|n: Seq<char>| final(self).has_list(n) == old(self).has_list(n)
                },
            },
    {
        let count = names.len();
        let mut k: usize = 0;
        while k < count
            invariant
                self.wf(),
                *self == *old(self),
                count == names@.len(),
                k <= count,
                forall|t: int| 0 <= t < k ==> old(self).contents(names@[t]@).len() == 0,
            decreases count - k,
        {
            let name: &String = &names[k];
            let found = self.find_list(name.as_str());
            match found {
                Some(i) => {
                    if self.queues[i].items.len() > 0 {
                        let ghost pre = *self;
                        let payload = self.queues[i].items.pop().unwrap();
                        proof {
                            assert(self.names() =~= pre.names());
                            let i2 = self.list_index(name@);
                            assert(pre.names()[i as int] == name@);
                            assert(self.names()[i as int] == name@);
                            assert(i2 == i as int) by {
                                if i2 != i as int {
                                    assert(self.names()[i2] == self.names()[i as int]);
                                    assert(false);
                                }
                            }
                            assert(payload@ == pre.contents(name@).last()) by {
                                let old_items = pre.queues@[i as int].items;
                                assert(payload == old_items@.last());
                            }
                            assert(self.contents(name@) =~= pre.contents(name@).drop_last()) by {
                                let new_items = self.queues@[i as int].items;
                                let old_items = pre.queues@[i as int].items;
                                assert(new_items@ == old_items@.drop_last());
                                assert(forall|t: int| 0 <= t < new_items@.len() ==>
                                    new_items@[t] == old_items@[t]);
                            }
                            assert forall|n: Seq<char>| n != name@ implies
                                self.contents(n) == pre.contents(n) by {
                                if pre.has_list(n) {
                                    let j = pre.list_index(n);
                                    assert(pre.names()[j] == n);
                                    let j2 = self.list_index(n);
                                    assert(self.names()[j2] == n);
                                    assert(j2 == j) by {
                                        if j2 != j {
                                            assert(self.names()[j2] == self.names()[j]);
                                            assert(false);
                                        }
                                    }
                                    assert(j != i as int) by {
                                        assert(pre.names()[i as int] == name@);
                                    }
                                    assert(self.queues@[j] == pre.queues@[j]);
                                }
                            }
                        }
                        return Some(Delivery { queue: name.clone(), payload });
                    }
                },
                None => {},
            }
            proof {
                assert(old(self).contents(names@[k as int]@).len() == 0);
            }
            k += 1;
        }
        None
    }

    /// Removes the first occurrence of an exact payload from the named
    /// list. Returns false, and changes nothing, when the payload is
    /// absent: acknowledging a message that is already gone is a no-op,
    /// not an error.
    pub fn remove_one(&mut self, name: &str, payload: &str) -> (r: bool)
        requires
            old(self).wf(),
        ensures
            final(self).wf(),
            r == old(self).contents(name@).contains(payload@),
            !r ==> *final(self) == *old(self),
            r ==> exists|i: int| {
                &&& is_first_hit(old(self).contents(name@), payload@, i)
                &&& final(self).contents(name@) == old(self).contents(name@).remove(i)
            },
            forall|n: Seq<char>| n != name@ ==> final(self).contents(n) == old(self).contents(n),
            forall|n: Seq<char>| final(self).has_list(n) == old(self).has_list(n),
    {
        let found = self.find_list(name);
        match found {
            Some(qi) => {
                let len = self.queues[qi].items.len();
                let mut i: usize = 0;
                while i < len
                    invariant
                        self.wf(),
                        *self == *old(self),
                        0 <= qi < self.queues@.len(),
                        self.has_list(name@),
                        self.list_index(name@) == qi as int,
                        len == self.queues@[qi as int].items@.len(),
                        i <= len,
                        forall|k: int| 0 <= k < i ==> self.contents(name@)[k] != payload@,
                    decreases len - i,
                {
                    if str_eq(self.queues[qi].items[i].as_str(), payload) {
                        let ghost pre = *self;
                        self.queues[qi].items.remove(i);
                        proof {
                            assert(self.names() =~= pre.names());
                            let i2 = self.list_index(name@);
                            assert(pre.names()[qi as int] == name@);
                            assert(self.names()[qi as int] == name@);
                            assert(i2 == qi as int) by {
                                if i2 != qi as int {
                                    assert(self.names()[i2] == self.names()[qi as int]);
                                    assert(false);
                                }
                            }
                            assert(is_first_hit(pre.contents(name@), payload@, i as int));
                            assert(pre.contents(name@).contains(payload@)) by {
                                assert(pre.contents(name@)[i as int] == payload@);
                            }
                            assert(self.contents(name@) =~= pre.contents(name@).remove(i as int)) by {
                                let new_items = self.queues@[qi as int].items;
                                let old_items = pre.queues@[qi as int].items;
                                assert(new_items@ == old_items@.remove(i as int));
                            }
                            assert forall|n: Seq<char>| n != name@ implies
                                self.contents(n) == pre.contents(n) by {
                                if pre.has_list(n) {
                                    let j = pre.list_index(n);
                                    assert(pre.names()[j] == n);
                                    let j2 = self.list_index(n);
                                    assert(self.names()[j2] == n);
                                    assert(j2 == j) by {
                                        if j2 != j {
                                            assert(self.names()[j2] == self.names()[j]);
                                            assert(false);
                                        }
                                    }
                                    assert(j != qi as int) by {
                                        assert(pre.names()[qi as int] == name@);
                                    }
                                    assert(self.queues@[j] == pre.queues@[j]);
                                }
                            }
                        }
                        return true;
                    }
                    i += 1;
                }
                proof {
                    if self.contents(name@).contains(payload@) {
                        let t = choose|t: int| 0 <= t < self.contents(name@).len()
                            && self.contents(name@)[t] == payload@;
                        assert(self.contents(name@)[t] != payload@);
                    }
                }
                false
            },
            None => {
                proof {
                    assert(self.contents(name@) == Seq::<Seq<char>>::empty());
                    if self.contents(name@).contains(payload@) {
                        let t = choose|t: int| 0 <= t < self.contents(name@).len()
                            && self.contents(name@)[t] == payload@;
                        assert(false);
                    }
                }
                false
            },
        }
    }
}

} // verus!
