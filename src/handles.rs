use vstd::prelude::*;

verus! {

/// The most slots an arena holds; slot indices fit in a `u32`.
pub const MAX_SLOTS: usize = 4294967295;

/// The highest generation a slot reaches. A slot whose occupant at this
/// generation is released is retired for good.
pub const LAST_GENERATION: u32 = 4294967295;

/// An opaque, generation-checked reference to an object held by a
/// [`HandleArena`]. Handles that the arena hands out have a generation of at
/// least 1, so their raw form is never zero.
#[derive(Clone, Copy, Debug, PartialEq, Eq, Structural)]
pub struct Handle {
    pub index: u32,
    pub generation: u32,
}

/// The raw, address-sized form of a handle: its index in the high half and
/// its generation in the low half.
pub open spec fn raw_of(h: Handle) -> nat {
    h.index as nat * 4294967296 + h.generation as nat
}

impl Handle {
    /// Packs the handle into one integer for the flat boundary.
    pub fn to_raw(self) -> (r: u64)
        ensures
            r == raw_of(self),
    {
        assert(self.index as nat * 4294967296 + self.generation as nat <= u64::MAX) by (nonlinear_arith)
            requires
                self.index <= u32::MAX,
                self.generation <= u32::MAX,
        ;
        (self.index as u64) * 4294967296 + (self.generation as u64)
    }

    /// Unpacks a raw handle. A raw value of generation zero (zero itself
    /// among them) names no handle.
    pub fn from_raw(raw: u64) -> (r: Option<Handle>)
        ensures
            raw % 4294967296 == 0 ==> r is None,
            raw % 4294967296 != 0 ==> r == Some(
                Handle { index: (raw / 4294967296) as u32, generation: (raw % 4294967296) as u32 },
            ),
    {
        let generation: u64 = raw % 4294967296;
        if generation == 0 {
            return None;
        }
        let index: u64 = raw / 4294967296;
        assert(index <= u32::MAX) by (nonlinear_arith)
            requires
                index == raw / 4294967296,
                raw <= u64::MAX,
        ;
        Some(Handle { index: index as u32, generation: generation as u32 })
    }
}

/// Packing a handle and unpacking it gives the handle back, and the packed
/// form of a handle with a nonzero generation is never the null value.
pub proof fn lemma_raw_round_trip(h: Handle)
    requires
        h.generation >= 1,
    ensures
        raw_of(h) != 0,
        raw_of(h) % 4294967296 == h.generation as nat,
        raw_of(h) / 4294967296 == h.index as nat,
{
    let i = h.index as nat;
    let g = h.generation as nat;
    assert((i * 4294967296 + g) % 4294967296 == g && (i * 4294967296 + g) / 4294967296 == i)
        by (nonlinear_arith)
        requires
            g < 4294967296,
    ;
}

/// One slot of an arena: the generation of its current (or next) occupant
/// and the occupant, if any.
struct Slot<T> {
    generation: u32,
    value: Option<T>,
}

/// `after` is `before` with `value` placed under `h`, a handle never handed
/// out before, which is now handed out.
pub open spec fn inserted<T>(before: HandleArena<T>, after: HandleArena<T>, h: Handle, value: T) -> bool {
    &&& !before.issued().contains(h)
    &&& h.generation >= 1
    &&& after.view() == before.view().insert(h, value)
    &&& after.issued() == before.issued().insert(h)
}

/// `after` is `before` with nothing held under `h` any more, and `r` is
/// what `before` held there, if anything.
pub open spec fn released<T>(before: HandleArena<T>, after: HandleArena<T>, h: Handle, r: Option<T>) -> bool {
    &&& after.issued() == before.issued()
    &&& after.view() == before.view().remove(h)
    &&& (r is Some <==> before.view().dom().contains(h))
    &&& (r matches Some(v) ==> v == before.view()[h])
}

/// Owns objects on behalf of a caller that refers to them by [`Handle`].
/// A released handle never becomes valid again: its slot moves on to a
/// later generation before it is reused.
pub struct HandleArena<T> {
    slots: Vec<Slot<T>>,
    issued: Ghost<Set<Handle>>,
}

impl<T> HandleArena<T> {
    /// Whether `h` refers to an object that the arena holds.
    pub closed spec fn live(&self, h: Handle) -> bool {
        &&& (h.index as int) < self.slots@.len()
        &&& self.slots@[h.index as int].generation == h.generation
        &&& self.slots@[h.index as int].value is Some
    }

    /// The objects held, by handle.
    pub closed spec fn view(&self) -> Map<Handle, T> {
        Map::new(
            |h: Handle| self.live(h),
            |h: Handle| self.slots@[h.index as int].value->Some_0,
        )
    }

    /// Every handle the arena has ever handed out.
    pub closed spec fn issued(&self) -> Set<Handle> {
        self.issued@
    }

    /// Whether slot `i` may take a new occupant.
    closed spec fn reusable(&self, i: int) -> bool {
        self.slots@[i].value is None && self.slots@[i].generation < LAST_GENERATION
    }

    /// No slot can take a new object and no slot can be added.
    pub closed spec fn exhausted(&self) -> bool {
        &&& self.slots@.len() >= MAX_SLOTS
        &&& forall|i: int| 0 <= i < self.slots@.len() ==> !#[trigger] self.reusable(i)
    }

    pub closed spec fn wf(&self) -> bool {
        &&& self.slots@.len() <= MAX_SLOTS
        &&& forall|i: int| 0 <= i < self.slots@.len() ==> (#[trigger] self.slots@[i]).generation >= 1
        &&& forall|h: Handle| #[trigger]
            self.issued@.contains(h) ==> {
                &&& (h.index as int) < self.slots@.len()
                &&& h.generation >= 1
                &&& {
                    let s = self.slots@[h.index as int];
                    h.generation < s.generation || (h.generation == s.generation && (s.value is Some
                        || s.generation == LAST_GENERATION))
                }
            }
        &&& forall|h: Handle| #[trigger] self.live(h) ==> self.issued@.contains(h)
    }

    /// An empty arena.
    pub fn new() -> (r: HandleArena<T>)
        ensures
            r.wf(),
            r.view() == Map::<Handle, T>::empty(),
            r.issued() == Set::<Handle>::empty(),
    {
        let r = HandleArena { slots: Vec::new(), issued: Ghost(Set::empty()) };
        assert(r.view() =~= Map::<Handle, T>::empty());
        r
    }

    /// Whether `h` refers to an object that the arena holds.
    pub fn contains(&self, h: Handle) -> (r: bool)
        requires
            self.wf(),
        ensures
            r == self.view().dom().contains(h),
    {
        (h.index as usize) < self.slots.len() && self.slots[h.index as usize].generation
            == h.generation && self.slots[h.index as usize].value.is_some()
    }

    /// The object behind `h`, if the arena holds one.
    pub fn get(&self, h: Handle) -> (r: Option<&T>)
        requires
            self.wf(),
        ensures
            r is Some <==> self.view().dom().contains(h),
            r matches Some(v) ==> *v == self.view()[h],
    {
        if (h.index as usize) < self.slots.len() {
            let slot = &self.slots[h.index as usize];
            if slot.generation == h.generation {
                return slot.value.as_ref();
            }
        }
        None
    }

    /// Takes ownership of `value` and hands out a handle never handed out
    /// before. Fails only when the arena is exhausted, and then holds
    /// nothing more.
    pub fn insert(&mut self, value: T) -> (r: Option<Handle>)
        requires
            old(self).wf(),
        ensures
            final(self).wf(),
            r is None <==> old(self).exhausted(),
            r is None ==> final(self).view() == old(self).view() && final(self).issued() == old(
                self,
            ).issued(),
            r matches Some(h) ==> inserted(*old(self), *final(self), h, value),
    {
        let mut i: usize = 0;
        while i < self.slots.len()
            invariant
                *self == *old(self),
                self.wf(),
                i <= self.slots@.len(),
                forall|j: int| 0 <= j < i ==> !#[trigger] self.reusable(j),
            decreases self.slots@.len() - i,
        {
            if self.slots[i].value.is_none() && self.slots[i].generation < LAST_GENERATION {
                let generation = self.slots[i].generation;
                let h = Handle { index: i as u32, generation };
                let ghost old_arena = *self;
                assert(old_arena.reusable(i as int));
                assert(!self.issued@.contains(h));
                self.slots.set(i, Slot { generation, value: Some(value) });
                self.issued = Ghost(self.issued@.insert(h));
                proof {
                    assert forall|k: Handle| #[trigger] self.live(k) implies self.issued@.contains(k) by {
                        if k != h {
                            assert(old_arena.live(k));
                        }
                    }
                    assert(self.view() =~= old_arena.view().insert(h, value));
                }
                return Some(h);
            }
            i = i + 1;
        }
        if self.slots.len() >= MAX_SLOTS {
            return None;
        }
        let h = Handle { index: self.slots.len() as u32, generation: 1 };
        let ghost old_arena = *self;
        assert(!self.issued@.contains(h));
        self.slots.push(Slot { generation: 1, value: Some(value) });
        self.issued = Ghost(self.issued@.insert(h));
        proof {
            assert forall|k: Handle| #[trigger] self.live(k) implies self.issued@.contains(k) by {
                if k != h {
                    assert(old_arena.live(k));
                }
            }
            assert(self.view() =~= old_arena.view().insert(h, value));
        }
        Some(h)
    }

    /// Releases the object behind `h` and hands it back. A handle that does
    /// not refer to a held object, because it was released before or never
    /// handed out, changes nothing and yields `None`.
    pub fn release(&mut self, h: Handle) -> (r: Option<T>)
        requires
            old(self).wf(),
        ensures
            final(self).wf(),
            released(*old(self), *final(self), h, r),
    {
        if !self.contains(h) {
            proof {
                assert(self.view().remove(h) =~= self.view());
            }
            return None;
        }
        let i = h.index as usize;
        let next = if h.generation < LAST_GENERATION {
            h.generation + 1
        } else {
            h.generation
        };
        let ghost old_arena = *self;
        let mut slot = Slot { generation: next, value: None };
        self.slots.set_and_swap(i, &mut slot);
        proof {
            assert forall|k: Handle| #[trigger] self.live(k) implies self.issued@.contains(k) by {
                assert(old_arena.live(k));
            }
            assert(self.view() =~= old_arena.view().remove(h));
        }
        slot.value
    }
}

/// Places `value` in `arena` and returns the handle that now owns it.
pub fn box_into_raw_new<T>(arena: &mut HandleArena<T>, value: T) -> (r: Option<Handle>)
    requires
        old(arena).wf(),
    ensures
        final(arena).wf(),
        r is None <==> old(arena).exhausted(),
        r is None ==> final(arena).view() == old(arena).view(),
        r matches Some(h) ==> inserted(*old(arena), *final(arena), h, value),
{
    arena.insert(value)
}

/// Drops a value the caller owns.
pub fn free<T>(_x: T) {
}

/// Release is exactly once. Take a handle `h` that an insertion of `value`
/// handed out, then any steps that left `h` alone, then a release of `h`, a
/// second release of `h`, and a later insertion. The first release yields
/// `value`; the second finds nothing; and the later insertion hands out a
/// handle other than `h`, so `h` never refers to an object again.
pub proof fn lemma_release_exactly_once<T>(
    a0: HandleArena<T>,
    a1: HandleArena<T>,
    a2: HandleArena<T>,
    a3: HandleArena<T>,
    a4: HandleArena<T>,
    a5: HandleArena<T>,
    h: Handle,
    value: T,
    first: Option<T>,
    second: Option<T>,
    later: Handle,
    other: T,
)
    requires
        inserted(a0, a1, h, value),
        a2.view().dom().contains(h) == a1.view().dom().contains(h),
        a2.view()[h] == a1.view()[h],
        a1.issued().subset_of(a2.issued()),
        released(a2, a3, h, first),
        released(a3, a4, h, second),
        inserted(a4, a5, later, other),
    ensures
        first == Some(value),
        second is None,
        later != h,
        !a5.view().dom().contains(h),
{
    assert(a1.issued().contains(h));
}

} // verus!
