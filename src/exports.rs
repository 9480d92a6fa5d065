use vstd::prelude::*;

verus! {

/// The host callbacks that one script context exposes, by global name.
/// Exporting under a name that is taken replaces the earlier callback and
/// hands it back, so that the caller releases it; every callback is
/// released with the registry.
pub struct ExportRegistry<C> {
    entries: Vec<(String, C)>,
}

impl<C> ExportRegistry<C> {
    /// The callbacks held, by name.
    pub closed spec fn view(&self) -> Map<Seq<char>, C> {
        Map::new(
            |name: Seq<char>| exists|i: int| 0 <= i < self.entries@.len() && #[trigger] self.entries@[i].0@ == name,
            |name: Seq<char>| {
                let i = choose|i: int| 0 <= i < self.entries@.len() && #[trigger] self.entries@[i].0@ == name;
                self.entries@[i].1
            },
        )
    }

    pub closed spec fn wf(&self) -> bool {
        forall|i: int, j: int|
            0 <= i < j < self.entries@.len() ==> #[trigger] self.entries@[i].0@ != #[trigger] self.entries@[j].0@
    }

    /// The entry at index `i` is the one the view gives for its name.
    proof fn lemma_entry(&self, i: int)
        requires
            self.wf(),
            0 <= i < self.entries@.len(),
        ensures
            self.view().dom().contains(self.entries@[i].0@),
            self.view()[self.entries@[i].0@] == self.entries@[i].1,
    {
        let name = self.entries@[i].0@;
        assert(self.entries@[i].0@ == name);
        let j = choose|j: int| 0 <= j < self.entries@.len() && #[trigger] self.entries@[j].0@ == name;
        if j != i {
            if i < j {
                assert(self.entries@[i].0@ != self.entries@[j].0@);
            } else {
                assert(self.entries@[j].0@ != self.entries@[i].0@);
            }
        }
    }

    /// An empty registry.
    pub fn new() -> (r: ExportRegistry<C>)
        ensures
            r.wf(),
            r.view() == Map::<Seq<char>, C>::empty(),
    {
        let r = ExportRegistry { entries: Vec::new() };
        assert(r.view() =~= Map::<Seq<char>, C>::empty());
        r
    }

    /// The number of callbacks held.
    pub fn len(&self) -> (r: usize)
        requires
            self.wf(),
        ensures
            r == self.view().len(),
    {
        proof {
            self.lemma_len();
        }
        self.entries.len()
    }

    proof fn lemma_len(&self)
        requires
            self.wf(),
        ensures
            self.view().len() == self.entries@.len(),
        decreases self.entries@.len(),
    {
        let names = self.entries@.map_values(|e: (String, C)| e.0@);
        assert(self.view().dom() =~= names.to_set()) by {
            assert forall|n: Seq<char>| self.view().dom().contains(n) implies names.to_set().contains(n) by {
                let i = choose|i: int| 0 <= i < self.entries@.len() && #[trigger] self.entries@[i].0@ == n;
                assert(names[i] == n);
            }
            assert forall|n: Seq<char>| names.to_set().contains(n) implies self.view().dom().contains(n) by {
                let i = choose|i: int| 0 <= i < names.len() && names[i] == n;
                assert(self.entries@[i].0@ == n);
            }
        }
        assert(names.no_duplicates()) by {
            assert forall|i: int, j: int| 0 <= i < names.len() && 0 <= j < names.len() && i != j
                implies names[i] != names[j] by {
                if i < j {
                    assert(self.entries@[i].0@ != self.entries@[j].0@);
                } else {
                    assert(self.entries@[j].0@ != self.entries@[i].0@);
                }
            }
        }
        names.unique_seq_to_set();
    }

    /// Finds the index of the entry named `name`.
    fn find(&self, name: &String) -> (r: Option<usize>)
        requires
            self.wf(),
        ensures
            r is None <==> !self.view().dom().contains(name@),
            r matches Some(i) ==> i < self.entries@.len() && self.entries@[i as int].0@ == name@,
    {
        let mut i: usize = 0;
        while i < self.entries.len()
            invariant
                i <= self.entries@.len(),
                forall|j: int| 0 <= j < i ==> #[trigger] self.entries@[j].0@ != name@,
            decreases self.entries@.len() - i,
        {
            if self.entries[i].0 == *name {
                return Some(i);
            }
            i = i + 1;
        }
        None
    }

    /// The callback exported under `name`, if any.
    pub fn lookup(&self, name: &str) -> (r: Option<&C>)
        requires
            self.wf(),
        ensures
            r is Some <==> self.view().dom().contains(name@),
            r matches Some(c) ==> *c == self.view()[name@],
    {
        let key = name.to_owned();
        match self.find(&key) {
            Some(i) => {
                proof {
                    self.lemma_entry(i as int);
                }
                Some(&self.entries[i].1)
            },
            None => None,
        }
    }

    /// Exports `callback` under `name`. The callback it replaces, if any,
    /// comes back to the caller.
    pub fn register(&mut self, name: String, callback: C) -> (r: Option<C>)
        requires
            old(self).wf(),
        ensures
            final(self).wf(),
            final(self).view() == old(self).view().insert(name@, callback),
            r is Some <==> old(self).view().dom().contains(name@),
            r matches Some(c) ==> c == old(self).view()[name@],
    {
        let ghost key = name@;
        match self.find(&name) {
            Some(i) => {
                proof {
                    self.lemma_entry(i as int);
                }
                let ghost old_reg = *self;
                let mut entry = (name, callback);
                self.entries.set_and_swap(i, &mut entry);
                proof {
                    assert forall|a: int, b: int| 0 <= a < b < self.entries@.len() implies #[trigger] self.entries@[a].0@
                        != #[trigger] self.entries@[b].0@ by {
                        assert(old_reg.entries@[a].0@ != old_reg.entries@[b].0@);
                    }
                    self.lemma_view_update(old_reg, i as int, key, callback);
                }
                Some(entry.1)
            },
            None => {
                let ghost old_reg = *self;
                self.entries.push((name, callback));
                proof {
                    assert forall|a: int, b: int| 0 <= a < b < self.entries@.len() implies #[trigger] self.entries@[a].0@
                        != #[trigger] self.entries@[b].0@ by {
                        if b == old_reg.entries@.len() {
                            assert(!old_reg.view().dom().contains(key));
                            assert(old_reg.entries@[a].0@ != key);
                        } else {
                            assert(old_reg.entries@[a].0@ != old_reg.entries@[b].0@);
                        }
                    }
                    let n = old_reg.entries@.len() as int;
                    assert(self.entries@[n].0@ == key);
                    self.lemma_entry(n);
                    assert forall|k: Seq<char>|
                        #![trigger self.view().dom().contains(k)]
                        #![trigger old_reg.view().dom().contains(k)]
                        k != key implies (self.view().dom().contains(k)
                        == old_reg.view().dom().contains(k)) && (self.view().dom().contains(k)
                        ==> self.view()[k] == old_reg.view()[k]) by {
                        if self.view().dom().contains(k) {
                            let j = choose|j: int| 0 <= j < self.entries@.len() && #[trigger] self.entries@[j].0@ == k;
                            assert(old_reg.entries@[j].0@ == k);
                            self.lemma_entry(j);
                            old_reg.lemma_entry(j);
                        }
                        if old_reg.view().dom().contains(k) {
                            let j = choose|j: int| 0 <= j < old_reg.entries@.len() && #[trigger] old_reg.entries@[j].0@ == k;
                            assert(self.entries@[j].0@ == k);
                        }
                    }
                    assert(self.view() =~= old_reg.view().insert(key, callback));
                }
                None
            },
        }
    }

    /// After the entry at index `i`, named `key`, is replaced by one of the
    /// same name, the view maps `key` to the new callback and is otherwise
    /// unchanged.
    proof fn lemma_view_update(&self, old_reg: ExportRegistry<C>, i: int, key: Seq<char>, callback: C)
        requires
            old_reg.wf(),
            self.wf(),
            0 <= i < old_reg.entries@.len(),
            old_reg.entries@[i].0@ == key,
            self.entries@.len() == old_reg.entries@.len(),
            forall|j: int| 0 <= j < self.entries@.len() && j != i ==> self.entries@[j] == old_reg.entries@[j],
            self.entries@[i].0@ == key,
            self.entries@[i].1 == callback,
        ensures
            self.view() == old_reg.view().insert(key, callback),
    {
        self.lemma_entry(i);
        assert forall|k: Seq<char>|
            #![trigger self.view().dom().contains(k)]
            #![trigger old_reg.view().dom().contains(k)]
            k != key implies (self.view().dom().contains(k)
            == old_reg.view().dom().contains(k)) && (self.view().dom().contains(k) ==> self.view()[k]
            == old_reg.view()[k]) by {
            if self.view().dom().contains(k) {
                let j = choose|j: int| 0 <= j < self.entries@.len() && #[trigger] self.entries@[j].0@ == k;
                assert(old_reg.entries@[j].0@ == k);
                self.lemma_entry(j);
                old_reg.lemma_entry(j);
            }
            if old_reg.view().dom().contains(k) {
                let j = choose|j: int| 0 <= j < old_reg.entries@.len() && #[trigger] old_reg.entries@[j].0@ == k;
                assert(self.entries@[j].0@ == k);
            }
        }
        assert(self.view() =~= old_reg.view().insert(key, callback));
    }

    /// Withdraws the callback exported under `name` and hands it back.
    pub fn remove(&mut self, name: &str) -> (r: Option<C>)
        requires
            old(self).wf(),
        ensures
            final(self).wf(),
            final(self).view() == old(self).view().remove(name@),
            r is Some <==> old(self).view().dom().contains(name@),
            r matches Some(c) ==> c == old(self).view()[name@],
    {
        let key = name.to_owned();
        match self.find(&key) {
            Some(i) => {
                proof {
                    self.lemma_entry(i as int);
                }
                let ghost old_reg = *self;
                let entry = self.entries.remove(i);
                proof {
                    assert forall|a: int, b: int| 0 <= a < b < self.entries@.len() implies #[trigger] self.entries@[a].0@
                        != #[trigger] self.entries@[b].0@ by {
                        let a2 = if a < i { a } else { a + 1 };
                        let b2 = if b < i { b } else { b + 1 };
                        assert(old_reg.entries@[a2].0@ != old_reg.entries@[b2].0@);
                    }
                    assert forall|k: Seq<char>|
                        #![trigger self.view().dom().contains(k)]
                        #![trigger old_reg.view().dom().contains(k)]
                        k != key@ implies (self.view().dom().contains(k)
                        == old_reg.view().dom().contains(k)) && (self.view().dom().contains(k)
                        ==> self.view()[k] == old_reg.view()[k]) by {
                        if self.view().dom().contains(k) {
                            let j = choose|j: int| 0 <= j < self.entries@.len() && #[trigger] self.entries@[j].0@ == k;
                            let j2 = if j < i { j } else { j + 1 };
                            assert(old_reg.entries@[j2].0@ == k);
                            self.lemma_entry(j);
                            old_reg.lemma_entry(j2);
                        }
                        if old_reg.view().dom().contains(k) {
                            let j = choose|j: int| 0 <= j < old_reg.entries@.len() && #[trigger] old_reg.entries@[j].0@ == k;
                            assert(j != i);
                            let j2 = if j < i { j } else { j - 1 };
                            assert(self.entries@[j2].0@ == k);
                        }
                    }
                    assert(!self.view().dom().contains(key@)) by {
                        if self.view().dom().contains(key@) {
                            let j = choose|j: int| 0 <= j < self.entries@.len() && #[trigger] self.entries@[j].0@ == key@;
                            let j2 = if j < i { j } else { j + 1 };
                            assert(old_reg.entries@[j2].0@ == key@);
                            if j2 < i {
                                assert(old_reg.entries@[j2].0@ != old_reg.entries@[i as int].0@);
                            } else {
                                assert(old_reg.entries@[i as int].0@ != old_reg.entries@[j2].0@);
                            }
                        }
                    }
                    assert(self.view() =~= old_reg.view().remove(key@));
                }
                Some(entry.1)
            },
            None => {
                assert(self.view().remove(key@) =~= self.view());
                None
            },
        }
    }
}

} // verus!
