use vstd::prelude::*;
use core::marker::PhantomData;
use vstd::std_specs::cmp::PartialEqSpec;

verus! {

/// Backing storage for shared handles: one cell per allocation, holding the
/// wrapped value and the number of live handles that alias it. Every
/// operation on a handle takes the store, so each read and write of a shared
/// value is visible to the verifier; a handle used with a store that did not
/// make it is a caller error.
#[derive(Debug)]
pub struct Store<T> {
    slots: Vec<Option<T>>,
    counts: Vec<usize>,
}

/// A reference-counted handle to a value held in a `Store`. Handles made by
/// `clone` alias one allocation; handles made by `new` or `default` never
/// alias another. A handle is given up with `release`: one that is dropped
/// otherwise is still counted, and keeps its allocation's value alive.
#[derive(Debug)]
pub struct Shared<T> {
    slot: usize,
    marker: PhantomData<T>,
}

impl<T> Store<T> {
    /// Number of allocations ever made in this store.
    pub closed spec fn len(&self) -> nat {
        self.slots@.len()
    }

    /// Whether allocation `id` still has live handles.
    pub closed spec fn live(&self, id: nat) -> bool {
        id < self.slots@.len() && self.counts@[id as int] > 0
    }

    /// The value wrapped by allocation `id`.
    pub closed spec fn value(&self, id: nat) -> T {
        self.slots@[id as int].unwrap()
    }

    /// The number of live handles that alias allocation `id`.
    pub closed spec fn count(&self, id: nat) -> nat {
        self.counts@[id as int] as nat
    }

    /// Every allocation holds a value exactly while some handle refers to it.
    pub closed spec fn wf(&self) -> bool {
        &&& self.slots@.len() == self.counts@.len()
        &&& forall|i: int| 0 <= i < self.slots@.len() ==>
            (#[trigger] self.slots@[i] is Some <==> self.counts@[i] > 0)
    }

    /// Every allocation of `pre` but `id` is the same in `self`: it is live
    /// in both or in neither, and a live one keeps its value and its count.
    pub open spec fn same_except(&self, pre: &Store<T>, id: nat) -> bool {
        &&& forall|j: nat| j != id ==> #[trigger] self.live(j) == pre.live(j)
        &&& forall|j: nat| j != id && pre.live(j) ==> #[trigger] self.value(j) == pre.value(j)
        &&& forall|j: nat| j != id && pre.live(j) ==> #[trigger] self.count(j) == pre.count(j)
    }

    /// An empty store, with no allocations.
    pub fn new() -> (r: Store<T>)
        ensures
            r.wf(),
            r.len() == 0,
            forall|id: nat| !r.live(id),
    {
        Store { slots: Vec::new(), counts: Vec::new() }
    }
}

/// `post` holds a fresh allocation `id`, with one handle, that `pre` did not
/// have, and every allocation of `pre` is unchanged.
pub open spec fn fresh_allocation<T>(pre: Store<T>, post: Store<T>, id: nat) -> bool {
    &&& !pre.live(id)
    &&& id == pre.len()
    &&& post.len() == pre.len() + 1
    &&& post.live(id)
    &&& post.count(id) == 1
    &&& post.same_except(&pre, id)
}

/// `post` is `pre` with one more handle on the live allocation `id`.
pub open spec fn shared_again<T>(pre: Store<T>, post: Store<T>, id: nat) -> bool {
    &&& post.live(id)
    &&& post.value(id) == pre.value(id)
    &&& post.count(id) == pre.count(id) + 1
    &&& post.same_except(&pre, id)
}

/// `post` is `pre` with `value` stored in the live allocation `id`.
pub open spec fn written<T>(pre: Store<T>, post: Store<T>, id: nat, value: T) -> bool {
    &&& post.live(id)
    &&& post.value(id) == value
    &&& post.count(id) == pre.count(id)
    &&& post.same_except(&pre, id)
}

impl<T> Shared<T> {
    /// The allocation this handle refers to: two handles are equal exactly
    /// when their identities are equal.
    pub closed spec fn id(&self) -> nat {
        self.slot as nat
    }

    /// Allocates a new cell in `store` holding `value`, with one handle.
    pub fn new(store: &mut Store<T>, value: T) -> (r: Shared<T>)
        requires
            old(store).wf(),
        ensures
            final(store).wf(),
            fresh_allocation(*old(store), *final(store), r.id()),
            final(store).value(r.id()) == value,
    {
        let slot = store.slots.len();
        store.slots.push(Some(value));
        store.counts.push(1);
        Shared { slot, marker: PhantomData }
    }

    /// Whether this handle refers to a live allocation of `store`.
    pub open spec fn valid(&self, store: &Store<T>) -> bool {
        store.wf() && store.live(self.id())
    }

    /// The number of live handles that alias this handle's allocation,
    /// itself included: those made by `new`, `default` or `clone` and not yet
    /// given up with `release`.
    pub fn use_count(&self, store: &Store<T>) -> (r: usize)
        requires
            self.valid(store),
        ensures
            r == store.count(self.id()),
    {
        store.counts[self.slot]
    }

    /// Makes another handle to the same allocation; the allocation gains one
    /// handle and nothing else changes.
    pub fn clone(&self, store: &mut Store<T>) -> (r: Shared<T>)
        requires
            self.valid(old(store)),
            old(store).count(self.id()) < usize::MAX,
        ensures
            final(store).wf(),
            r.id() == self.id(),
            shared_again(*old(store), *final(store), self.id()),
    {
        let c = store.counts[self.slot];
        store.counts.set(self.slot, c + 1);
        Shared { slot: self.slot, marker: PhantomData }
    }

    /// Read access to the wrapped value.
    pub fn get<'a>(&self, store: &'a Store<T>) -> (r: &'a T)
        requires
            self.valid(store),
        ensures
            *r == store.value(self.id()),
    {
        store.slots[self.slot].as_ref().unwrap()
    }

    /// Replaces the wrapped value; every handle that aliases this one sees
    /// the new value, and no other allocation changes.
    pub fn set(&self, store: &mut Store<T>, value: T)
        requires
            self.valid(old(store)),
        ensures
            final(store).wf(),
            written(*old(store), *final(store), self.id(), value),
    {
        store.slots.set(self.slot, Some(value));
    }

    /// Write access to the wrapped value: whatever is left behind the returned
    /// reference becomes the value that every alias of this handle reads.
    pub fn get_mut<'a>(&self, store: &'a mut Store<T>) -> (r: &'a mut T)
        requires
            self.valid(old(store)),
        ensures
            *r == old(store).value(self.id()),
            final(store).wf(),
            written(*old(store), *final(store), self.id(), *final(r)),
    {
        store.slots[self.slot].as_mut().unwrap()
    }

    /// Gives up this handle. The allocation loses one handle, and its value
    /// is dropped when that was the last one.
    pub fn release(self, store: &mut Store<T>)
        requires
            self.valid(old(store)),
        ensures
            final(store).wf(),
            final(store).same_except(&old(store), self.id()),
            old(store).count(self.id()) == 1 ==> !final(store).live(self.id()),
            old(store).count(self.id()) > 1 ==> {
                &&& final(store).live(self.id())
                &&& final(store).value(self.id()) == old(store).value(self.id())
                &&& final(store).count(self.id()) == old(store).count(self.id()) - 1
            },
    {
        let c = store.counts[self.slot];
        store.counts.set(self.slot, c - 1);
        if c == 1 {
            store.slots.set(self.slot, None);
        }
    }
}

impl<T: Default> Shared<T> {
    /// Allocates a new cell in `store` holding `T`'s default value, with one
    /// handle; it aliases no other handle.
    pub fn default(store: &mut Store<T>) -> (r: Shared<T>)
        requires
            old(store).wf(),
        ensures
            final(store).wf(),
            fresh_allocation(*old(store), *final(store), r.id()),
            call_ensures(T::default, (), final(store).value(r.id())),
    {
        let v = T::default();
        Shared::new(store, v)
    }
}

impl<'a> Shared<&'a [i32]> {
    /// Allocates a new cell holding a view of the given integers.
    pub fn of_ints(store: &mut Store<&'a [i32]>, values: &'a [i32]) -> (r: Shared<&'a [i32]>)
        requires
            old(store).wf(),
        ensures
            final(store).wf(),
            fresh_allocation(*old(store), *final(store), r.id()),
            final(store).value(r.id())@ == values@,
    {
        Shared::new(store, values)
    }
}

/// Handles are equal when they refer to the same allocation, whatever the
/// wrapped values are.
impl<T> PartialEq for Shared<T> {
    fn eq(&self, other: &Shared<T>) -> (r: bool) {
        self.slot == other.slot
    }
}

impl<T> vstd::std_specs::cmp::PartialEqSpecImpl for Shared<T> {
    open spec fn obeys_eq_spec() -> bool {
        true
    }

    open spec fn eq_spec(&self, other: &Shared<T>) -> bool {
        self.id() == other.id()
    }
}

impl<T> Eq for Shared<T> {
}

/// A value stored by `new` is the value read back through the new handle.
pub proof fn lemma_new_then_read<T>(pre: Store<T>, post: Store<T>, h: Shared<T>, value: T)
    requires
        pre.wf(),
        post.wf(),
        fresh_allocation(pre, post, h.id()),
        post.value(h.id()) == value,
    ensures
        h.valid(&post),
        post.value(h.id()) == value,
{
}

/// A clone is identity-equal to the handle it came from, and both report
/// the same use count, one more than before; after one clone of a fresh
/// handle both report two.
pub proof fn lemma_clone_aliases<T>(pre: Store<T>, post: Store<T>, h: Shared<T>, h2: Shared<T>)
    requires
        h.valid(&pre),
        post.wf(),
        h2.id() == h.id(),
        shared_again(pre, post, h.id()),
    ensures
        h.eq_spec(&h2),
        h2.eq_spec(&h),
        h.valid(&post),
        h2.valid(&post),
        post.count(h.id()) == post.count(h2.id()),
        post.count(h2.id()) == pre.count(h.id()) + 1,
        pre.count(h.id()) == 1 ==> post.count(h.id()) == 2 && post.count(h2.id()) == 2,
        post.value(h2.id()) == pre.value(h.id()),
{
}

/// A value written through one handle is read through every handle that
/// aliases the same allocation.
pub proof fn lemma_write_seen_by_aliases<T>(
    pre: Store<T>,
    post: Store<T>,
    h1: Shared<T>,
    h2: Shared<T>,
    value: T,
)
    requires
        h1.valid(&pre),
        h1.eq_spec(&h2),
        post.wf(),
        written(pre, post, h2.id(), value),
    ensures
        h1.valid(&post),
        post.value(h1.id()) == value,
{
}

/// Two handles made by separate allocations (by `new` or `default`) are not
/// identity-equal, whatever values they wrap.
pub proof fn lemma_fresh_handles_distinct<T>(
    s0: Store<T>,
    s1: Store<T>,
    s2: Store<T>,
    h1: Shared<T>,
    h2: Shared<T>,
)
    requires
        s0.wf(),
        s1.wf(),
        s2.wf(),
        fresh_allocation(s0, s1, h1.id()),
        fresh_allocation(s1, s2, h2.id()),
    ensures
        !h1.eq_spec(&h2),
        h1.valid(&s2),
        h2.valid(&s2),
{
}

/// A value written through one handle leaves every handle that does not
/// alias it unchanged.
pub proof fn lemma_write_leaves_others<T>(
    pre: Store<T>,
    post: Store<T>,
    h: Shared<T>,
    g: Shared<T>,
    value: T,
)
    requires
        g.valid(&pre),
        !h.eq_spec(&g),
        post.wf(),
        written(pre, post, h.id(), value),
    ensures
        g.valid(&post),
        post.value(g.id()) == pre.value(g.id()),
        post.count(g.id()) == pre.count(g.id()),
{
}

/// A handle made by `default` reads `T`'s default value, and keeps reading
/// it while values are written only through handles that do not alias it.
pub proof fn lemma_default_reads_default<T: Default>(
    s0: Store<T>,
    s1: Store<T>,
    s2: Store<T>,
    d: Shared<T>,
    h: Shared<T>,
    value: T,
)
    requires
        s0.wf(),
        s1.wf(),
        s2.wf(),
        fresh_allocation(s0, s1, d.id()),
        call_ensures(T::default, (), s1.value(d.id())),
        !h.eq_spec(&d),
        written(s1, s2, h.id(), value),
    ensures
        d.valid(&s2),
        call_ensures(T::default, (), s2.value(d.id())),
{
}

} // verus!
