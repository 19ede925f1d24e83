//! Reference-counted objects and the ownership-tagged handles that hold them.
//!
//! `Runtime` is a model of a reference-counted foreign object runtime, kept
//! in process so that the ownership rules can be proved against it; it is
//! not a binding to such a runtime. It is the store of objects: each has a class, its contents and a
//! retain count. An `Id<T, O>` holds one unit of that count for an object of
//! class `T`; `O` says whether the handle is the only one (`Owned`) or one of
//! many read-only ones (`Shared`). Release pools hold units that are given up
//! when the innermost pool is popped.
use core::marker::PhantomData;
use vstd::prelude::*;

verus! {

/// The class of an object in the store.
#[derive(Clone, Copy, Debug, PartialEq, Eq, Structural)]
pub enum Class {
    String,
    MutableString,
    MutableSet,
}

/// Marker of a handle that is the only one to its object.
pub struct Owned;

/// Marker of a handle that may be one of many to its object.
pub struct Shared;

/// The ownership mode of a handle.
pub trait Ownership {
    spec fn is_unique() -> bool;

    fn unique() -> (r: bool)
        ensures
            r == Self::is_unique(),
    ;
}

impl Ownership for Owned {
    open spec fn is_unique() -> bool {
        true
    }

    fn unique() -> (r: bool) {
        true
    }
}

impl Ownership for Shared {
    open spec fn is_unique() -> bool {
        false
    }

    fn unique() -> (r: bool) {
        false
    }
}

/// A type whose values are objects of one class of the store.
pub trait ClassType {
    spec fn spec_class() -> Class;

    fn class() -> (r: Class)
        ensures
            r == Self::spec_class(),
    ;
}

/// What the store knows of one object.
pub struct ObjectView {
    pub class: Class,
    pub text: Seq<char>,
    pub members: Seq<usize>,
    pub count: nat,
    pub unique: bool,
}

/// The store as a whole: its objects, by index, and its stack of release
/// pools, innermost last, each with the objects released into it in order.
pub struct RuntimeView {
    pub objects: Seq<ObjectView>,
    pub pools: Seq<Seq<usize>>,
}

/// Gives up one unit of `o`'s count; the last unit leaves it dead.
pub open spec fn drop_unit(objects: Seq<ObjectView>, o: usize) -> Seq<ObjectView> {
    if o < objects.len() && objects[o as int].count > 0 {
        objects.update(
            o as int,
            ObjectView {
                count: (objects[o as int].count - 1) as nat,
                unique: false,
                ..objects[o as int]
            },
        )
    } else {
        objects
    }
}

/// Gives up one unit of each of `os`, in order.
pub open spec fn drop_units(objects: Seq<ObjectView>, os: Seq<usize>) -> Seq<ObjectView>
    decreases os.len(),
{
    if os.len() == 0 {
        objects
    } else {
        drop_units(drop_unit(objects, os[0]), os.drop_first())
    }
}

/// Whether `o` is a live set that gives up its last unit now.
pub open spec fn dies_as_set(objects: Seq<ObjectView>, o: usize) -> bool {
    o < objects.len() && objects[o as int].count == 1 && objects[o as int].class
        == Class::MutableSet
}

/// Releases one unit of `o`; a set that dies releases its members.
pub open spec fn release_one(objects: Seq<ObjectView>, o: usize) -> Seq<ObjectView> {
    if dies_as_set(objects, o) {
        drop_units(drop_unit(objects, o), objects[o as int].members)
    } else {
        drop_unit(objects, o)
    }
}

/// Releases one unit of each of `os`, in order.
pub open spec fn release_all(objects: Seq<ObjectView>, os: Seq<usize>) -> Seq<ObjectView>
    decreases os.len(),
{
    if os.len() == 0 {
        objects
    } else {
        release_all(release_one(objects, os[0]), os.drop_first())
    }
}

/// One more unit of `o`.
pub open spec fn retained(objects: Seq<ObjectView>, o: usize) -> Seq<ObjectView> {
    objects.update(o as int, ObjectView { count: objects[o as int].count + 1, ..objects[o as int] })
}

/// The store after a sequence of handle operations on `o`: `true` retains
/// a shared handle to it, `false` drops one.
pub open spec fn handle_ops(objects: Seq<ObjectView>, o: usize, ops: Seq<bool>) -> Seq<ObjectView>
    decreases ops.len(),
{
    if ops.len() == 0 {
        objects
    } else {
        let before = handle_ops(objects, o, ops.drop_last());
        if ops.last() {
            retained(before, o)
        } else {
            release_one(before, o)
        }
    }
}

/// How many of `ops` retain.
pub open spec fn retains(ops: Seq<bool>) -> nat
    decreases ops.len(),
{
    if ops.len() == 0 {
        0
    } else {
        retains(ops.drop_last()) + if ops.last() {
            1nat
        } else {
            0nat
        }
    }
}

/// How many of `ops` drop.
pub open spec fn drops(ops: Seq<bool>) -> nat
    decreases ops.len(),
{
    if ops.len() == 0 {
        0
    } else {
        drops(ops.drop_last()) + if ops.last() {
            0nat
        } else {
            1nat
        }
    }
}

/// Count conservation: after any sequence of retains (`retain_shared`, or a
/// `copy` that aliases) and drops (`release`) of handles to an object that
/// is no set, in which every drop gives up a handle that
/// is live, the object's count is the number of handles still live: those
/// it had, plus one for each retain, less one for each drop.
pub proof fn count_conservation(objects: Seq<ObjectView>, o: usize, ops: Seq<bool>)
    requires
        o < objects.len(),
        objects[o as int].class != Class::MutableSet,
        forall|i: int|
            0 <= i <= ops.len() ==> drops(#[trigger] ops.take(i)) <= objects[o as int].count
                + retains(ops.take(i)),
    ensures
        handle_ops(objects, o, ops).len() == objects.len(),
        handle_ops(objects, o, ops)[o as int].class == objects[o as int].class,
        handle_ops(objects, o, ops)[o as int].count == objects[o as int].count + retains(ops)
            - drops(ops),
    decreases ops.len(),
{
    if ops.len() > 0 {
        let prefix = ops.drop_last();
        assert forall|i: int| 0 <= i <= prefix.len() implies drops(#[trigger] prefix.take(i))
            <= objects[o as int].count + retains(prefix.take(i)) by {
            assert(prefix.take(i) =~= ops.take(i));
        }
        count_conservation(objects, o, prefix);
        assert(ops.take(ops.len() as int) =~= ops);
    }
}

/// Whether `after` has the objects of `before`, of the same classes.
pub open spec fn same_shape(before: Seq<ObjectView>, after: Seq<ObjectView>) -> bool {
    &&& after.len() == before.len()
    &&& forall|j: int| 0 <= j < before.len() ==> #[trigger] after[j].class == before[j].class
}

proof fn lemma_drop_units_shape(objects: Seq<ObjectView>, os: Seq<usize>)
    ensures
        same_shape(objects, drop_units(objects, os)),
    decreases os.len(),
{
    if os.len() > 0 {
        lemma_drop_units_shape(drop_unit(objects, os[0]), os.drop_first());
    }
}

/// Releasing keeps every object, and its class.
pub proof fn lemma_release_one_shape(objects: Seq<ObjectView>, o: usize)
    ensures
        same_shape(objects, release_one(objects, o)),
{
    if dies_as_set(objects, o) {
        lemma_drop_units_shape(drop_unit(objects, o), objects[o as int].members);
    }
}

/// Popping the innermost pool spares what only outer pools hold: where the
/// pool holds no set, every object not released into it is left as it was.
pub proof fn pop_spares_outer(objects: Seq<ObjectView>, top: Seq<usize>, o: usize)
    requires
        o < objects.len(),
        !top.contains(o),
        forall|i: int|
            0 <= i < top.len() ==> top[i] < objects.len() && objects[#[trigger] top[i] as int].class
                != Class::MutableSet,
    ensures
        release_all(objects, top)[o as int] == objects[o as int],
    decreases top.len(),
{
    if top.len() > 0 {
        let next = release_one(objects, top[0]);
        lemma_release_one_shape(objects, top[0]);
        let rest = top.drop_first();
        assert forall|i: int| 0 <= i < rest.len() implies rest[i] < next.len() && next[#[trigger] rest[i] as int].class
            != Class::MutableSet by {
            assert(rest[i] == top[i + 1]);
        }
        assert(!rest.contains(o)) by {
            if rest.contains(o) {
                let k = choose|k: int| 0 <= k < rest.len() && rest[k] == o;
                assert(top[k + 1] == o);
            }
        }
        assert(top[0] != o) by {
            assert(top[0] == top[0]);
        }
        pop_spares_outer(next, rest, o);
    }
}

/// A copy of `v`.
pub fn copy_vec<T: Copy>(v: &Vec<T>) -> (r: Vec<T>)
    ensures
        r@ == v@,
{
    let mut r: Vec<T> = Vec::new();
    let mut i: usize = 0;
    while i < v.len()
        invariant
            i <= v.len(),
            r@ == v@.take(i as int),
        decreases v.len() - i,
    {
        r.push(v[i]);
        i = i + 1;
        proof {
            assert(r@ =~= v@.take(i as int));
        }
    }
    proof {
        assert(v@.take(i as int) =~= v@);
    }
    r
}

/// A new object of class `T` with the text `text`, held by one handle in
/// mode `O`.
pub open spec fn new_text_object<T: ClassType, O: Ownership>(text: Seq<char>) -> ObjectView {
    ObjectView {
        class: T::spec_class(),
        text: text,
        members: Seq::empty(),
        count: 1,
        unique: O::is_unique(),
    }
}

/// What a constructor of a string object promises: the store grows by the
/// one object that `r` holds, with the text `text` and a count of one, and
/// is otherwise unchanged.
pub open spec fn grows_by_one<T: ClassType, O: Ownership>(
    before: Runtime,
    after: Runtime,
    r: Id<T, O>,
    text: Seq<char>,
) -> bool {
    &&& after.wf()
    &&& after.holds(&r)
    &&& r.index() == before@.objects.len()
    &&& after@.objects == before@.objects.push(new_text_object::<T, O>(text))
    &&& after@.pools == before@.pools
}

/// The store of objects.
pub struct Runtime {
    classes: Vec<Class>,
    texts: Vec<Vec<char>>,
    members: Vec<Vec<usize>>,
    counts: Vec<u64>,
    unique: Vec<bool>,
    pools: Vec<Vec<usize>>,
}

impl View for Runtime {
    type V = RuntimeView;

    closed spec fn view(&self) -> RuntimeView {
        RuntimeView {
            objects: Seq::new(
                self.counts@.len(),
                |i: int|
                    ObjectView {
                        class: self.classes@[i],
                        text: self.texts@[i]@,
                        members: self.members@[i]@,
                        count: self.counts@[i] as nat,
                        unique: self.unique@[i],
                    },
            ),
            pools: Seq::new(self.pools@.len(), |i: int| self.pools@[i]@),
        }
    }
}

/// A handle to an object of class `T` that holds one unit of its count.
///
/// A handle has no `Drop`: its unit is given up only by passing it to
/// `Runtime::release` (or to a set or a pool that takes it over). A handle
/// that is merely dropped keeps its unit for the life of the store.
pub struct Id<T, O> {
    obj: usize,
    class: PhantomData<T>,
    mode: PhantomData<O>,
}

impl<T, O> Id<T, O> {
    /// The index of the object in its store.
    pub closed spec fn index(&self) -> usize {
        self.obj
    }

    /// The index of the object in its store, for as long as the handle is
    /// borrowed.
    pub fn as_raw(&self) -> (r: usize)
        ensures
            r == self.index(),
    {
        self.obj
    }
}

/// Proof that a release pool is on the stack, at depth `depth()`.
pub struct PoolToken {
    depth: usize,
}

impl PoolToken {
    pub closed spec fn depth(&self) -> nat {
        self.depth as nat
    }
}

/// A view of an object released into a pool: it holds no unit of its own
/// and lives no longer than the pool's token is borrowed.
pub struct Borrowed<'p, T> {
    obj: usize,
    class: PhantomData<T>,
    pool: PhantomData<&'p PoolToken>,
}

impl<'p, T> Borrowed<'p, T> {
    pub closed spec fn index(&self) -> usize {
        self.obj
    }

    pub fn as_raw(&self) -> (r: usize)
        ensures
            r == self.index(),
    {
        self.obj
    }
}

impl Runtime {
    /// Every vector has one entry per object, and an object held by an
    /// owned handle has no other unit outstanding.
    pub closed spec fn wf(&self) -> bool {
        &&& self.classes@.len() == self.counts@.len()
        &&& self.texts@.len() == self.counts@.len()
        &&& self.members@.len() == self.counts@.len()
        &&& self.unique@.len() == self.counts@.len()
        &&& forall|i: int| 0 <= i < self.counts@.len() && #[trigger] self.unique@[i]
            ==> self.counts@[i] == 1
        &&& forall|i: int, j: int|
            0 <= i < self.members@.len() && 0 <= j < self.members@[i]@.len()
                ==> #[trigger] self.members@[i]@[j] < self.counts@.len()
    }

    /// Whether every index in `members` is an object of this store.
    pub open spec fn all_objects(&self, members: Seq<usize>) -> bool {
        forall|j: int| 0 <= j < members.len() ==> #[trigger] members[j] < self@.objects.len()
    }

    /// Whether `h` is a live handle of this store, of the class and mode its
    /// type says.
    pub open spec fn holds<T: ClassType, O: Ownership>(&self, h: &Id<T, O>) -> bool {
        let o = h.index() as int;
        &&& 0 <= o < self@.objects.len()
        &&& self@.objects[o].count > 0
        &&& self@.objects[o].class == T::spec_class()
        &&& self@.objects[o].unique == O::is_unique()
    }

    /// The object that `h` holds.
    pub open spec fn object<T, O>(&self, h: &Id<T, O>) -> ObjectView {
        self@.objects[h.index() as int]
    }

    /// An empty store with no pool.
    pub fn new() -> (r: Runtime)
        ensures
            r.wf(),
            r@.objects.len() == 0,
            r@.pools.len() == 0,
    {
        let r = Runtime {
            classes: Vec::new(),
            texts: Vec::new(),
            members: Vec::new(),
            counts: Vec::new(),
            unique: Vec::new(),
            pools: Vec::new(),
        };
        proof {
            assert(r@.objects =~= Seq::empty());
            assert(r@.pools =~= Seq::empty());
        }
        r
    }

    /// Adds a new object with one unit, held by the handle returned.
    fn allocate<T: ClassType, O: Ownership>(&mut self, text: Vec<char>, members: Vec<usize>) -> (r:
        Id<T, O>)
        requires
            old(self).wf(),
            old(self).all_objects(members@),
        ensures
            final(self).wf(),
            r.index() == old(self)@.objects.len(),
            final(self)@.objects == old(self)@.objects.push(
                ObjectView {
                    class: T::spec_class(),
                    text: text@,
                    members: members@,
                    count: 1,
                    unique: O::is_unique(),
                },
            ),
            final(self)@.pools == old(self)@.pools,
            final(self).holds(&r),
    {
        let obj = self.counts.len();
        self.classes.push(T::class());
        self.texts.push(text);
        self.members.push(members);
        self.counts.push(1);
        self.unique.push(O::unique());
        let r = Id { obj, class: PhantomData, mode: PhantomData };
        proof {
            assert(self@.objects =~= old(self)@.objects.push(
                ObjectView {
                    class: T::spec_class(),
                    text: text@,
                    members: members@,
                    count: 1,
                    unique: O::is_unique(),
                },
            ));
            assert(self@.pools =~= old(self)@.pools);
        }
        r
    }

    /// Adds a new object of class `T` with the text `text`, held by the
    /// handle returned, in mode `O`.
    pub fn alloc_text<T: ClassType, O: Ownership>(&mut self, text: Vec<char>) -> (r: Id<T, O>)
        requires
            old(self).wf(),
        ensures
            grows_by_one(*old(self), *final(self), r, text@),
    {
        self.allocate(text, Vec::new())
    }

    /// Adds a new set object with the members `members`, each of which hands
    /// one unit to it, held by the owned handle returned.
    pub(crate) fn alloc_set<T: ClassType>(&mut self, members: Vec<usize>) -> (r: Id<T, Owned>)
        requires
            old(self).wf(),
            old(self).all_objects(members@),
            T::spec_class() == Class::MutableSet,
        ensures
            final(self).wf(),
            r.index() == old(self)@.objects.len(),
            final(self)@.objects == old(self)@.objects.push(
                ObjectView {
                    class: Class::MutableSet,
                    text: Seq::empty(),
                    members: members@,
                    count: 1,
                    unique: true,
                },
            ),
            final(self)@.pools == old(self)@.pools,
            final(self).holds(&r),
    {
        self.allocate(Vec::new(), members)
    }

    /// One more unit for a shared object, held by the handle returned.
    pub fn retain_shared<T: ClassType>(&mut self, h: &Id<T, Shared>) -> (r: Id<T, Shared>)
        requires
            old(self).wf(),
            old(self).holds(h),
            old(self).object(h).count < u64::MAX,
        ensures
            final(self).wf(),
            r.index() == h.index(),
            final(self)@.objects == retained(old(self)@.objects, h.index()),
            final(self)@.pools == old(self)@.pools,
            final(self).holds(h),
            final(self).holds(&r),
    {
        self.retain(h)
    }

    /// One more unit for an object whose handle `h` is not the only one,
    /// held by the shared handle returned.
    pub fn retain<T: ClassType, O: Ownership>(&mut self, h: &Id<T, O>) -> (r: Id<T, Shared>)
        requires
            old(self).wf(),
            old(self).holds(h),
            !O::is_unique(),
            old(self).object(h).count < u64::MAX,
        ensures
            final(self).wf(),
            r.index() == h.index(),
            final(self)@.objects == retained(old(self)@.objects, h.index()),
            final(self)@.pools == old(self)@.pools,
            final(self).holds(h),
            final(self).holds(&r),
    {
        let o = h.obj;
        let c = self.counts[o];
        self.counts.set(o, c + 1);
        proof {
            assert(self@.objects =~= retained(old(self)@.objects, o));
            assert(self@.pools =~= old(self)@.pools);
        }
        Id { obj: o, class: PhantomData, mode: PhantomData }
    }

    /// The same unit, now held as one that others may share; nothing else
    /// changes. There is no way back.
    pub fn downgrade<T: ClassType>(&mut self, h: Id<T, Owned>) -> (r: Id<T, Shared>)
        requires
            old(self).wf(),
            old(self).holds(&h),
        ensures
            final(self).wf(),
            r.index() == h.index(),
            final(self)@.objects == old(self)@.objects.update(
                h.index() as int,
                ObjectView { unique: false, ..old(self).object(&h) },
            ),
            final(self)@.pools == old(self)@.pools,
            final(self).holds(&r),
    {
        let o = h.obj;
        self.unique.set(o, false);
        proof {
            assert(self@.objects =~= old(self)@.objects.update(
                o as int,
                ObjectView { unique: false, ..old(self).object(&h) },
            ));
            assert(self@.pools =~= old(self)@.pools);
        }
        Id { obj: o, class: PhantomData, mode: PhantomData }
    }

    /// The count of the object that `h` holds.
    pub fn retain_count<T: ClassType, O: Ownership>(&self, h: &Id<T, O>) -> (r: u64)
        requires
            self.wf(),
            self.holds(h),
        ensures
            r == self.object(h).count,
    {
        self.counts[h.obj]
    }

    fn drop_unit(&mut self, o: usize)
        requires
            old(self).wf(),
        ensures
            final(self).wf(),
            final(self)@.objects == drop_unit(old(self)@.objects, o),
            final(self)@.pools == old(self)@.pools,
    {
        if o < self.counts.len() && self.counts[o] > 0 {
            let c = self.counts[o];
            self.counts.set(o, c - 1);
            self.unique.set(o, false);
            proof {
                assert(self@.objects =~= drop_unit(old(self)@.objects, o));
            }
        }
        proof {
            assert(self@.pools =~= old(self)@.pools);
        }
    }

    fn drop_units(&mut self, os: &Vec<usize>)
        requires
            old(self).wf(),
        ensures
            final(self).wf(),
            final(self)@.objects == drop_units(old(self)@.objects, os@),
            final(self)@.pools == old(self)@.pools,
    {
        let mut i: usize = 0;
        proof {
            assert(os@.skip(0) =~= os@);
        }
        while i < os.len()
            invariant
                self.wf(),
                i <= os.len(),
                drop_units(self@.objects, os@.skip(i as int)) == drop_units(
                    old(self)@.objects,
                    os@,
                ),
                self@.pools == old(self)@.pools,
            decreases os.len() - i,
        {
            proof {
                assert(os@.skip(i as int).drop_first() =~= os@.skip(i + 1));
            }
            self.drop_unit(os[i]);
            i = i + 1;
        }
        proof {
            assert(os@.skip(i as int) =~= Seq::<usize>::empty());
        }
    }

    fn release_index(&mut self, o: usize)
        requires
            old(self).wf(),
        ensures
            final(self).wf(),
            final(self)@.objects == release_one(old(self)@.objects, o),
            final(self)@.pools == old(self)@.pools,
    {
        if o < self.counts.len() && self.counts[o] == 1 && self.classes[o] == Class::MutableSet {
            let ms = copy_vec(&self.members[o]);
            self.drop_unit(o);
            self.drop_units(&ms);
        } else {
            self.drop_unit(o);
        }
    }

    /// Gives up the unit that `h` holds; a set that dies with it releases
    /// its members.
    pub fn release<T: ClassType, O: Ownership>(&mut self, h: Id<T, O>)
        requires
            old(self).wf(),
            old(self).holds(&h),
        ensures
            final(self).wf(),
            final(self)@.objects == release_one(old(self)@.objects, h.index()),
            final(self)@.pools == old(self)@.pools,
    {
        self.release_index(h.obj);
    }

    /// Pushes a new, empty, innermost release pool.
    pub fn push_pool(&mut self) -> (r: PoolToken)
        requires
            old(self).wf(),
        ensures
            final(self).wf(),
            final(self)@.objects == old(self)@.objects,
            final(self)@.pools == old(self)@.pools.push(Seq::empty()),
            r.depth() == final(self)@.pools.len(),
    {
        self.pools.push(Vec::new());
        proof {
            assert(self@.objects =~= old(self)@.objects);
            assert(self@.pools =~= old(self)@.pools.push(Seq::empty()));
        }
        PoolToken { depth: self.pools.len() }
    }

    /// Hands the unit that `h` holds to the innermost pool, which gives it
    /// up when it is popped; the view returned lives no longer than `pool`
    /// is borrowed.
    pub fn autorelease<'p, T: ClassType, O: Ownership>(
        &mut self,
        h: Id<T, O>,
        pool: &'p PoolToken,
    ) -> (r: Borrowed<'p, T>)
        requires
            old(self).wf(),
            old(self).holds(&h),
            pool.depth() == old(self)@.pools.len(),
            pool.depth() > 0,
        ensures
            final(self).wf(),
            r.index() == h.index(),
            final(self)@.objects == old(self)@.objects.update(
                h.index() as int,
                ObjectView { unique: false, ..old(self).object(&h) },
            ),
            final(self)@.pools == old(self)@.pools.update(
                pool.depth() - 1,
                old(self)@.pools.last().push(h.index()),
            ),
    {
        let o = h.obj;
        let top = self.pools.len() - 1;
        let mut entries: Vec<usize> = Vec::new();
        self.pools.set_and_swap(top, &mut entries);
        entries.push(o);
        self.pools.set(top, entries);
        self.unique.set(o, false);
        proof {
            assert(self@.objects =~= old(self)@.objects.update(
                o as int,
                ObjectView { unique: false, ..old(self).object(&h) },
            ));
            assert(self@.pools =~= old(self)@.pools.update(
                pool.depth() - 1,
                old(self)@.pools.last().push(o),
            ));
        }
        Borrowed { obj: o, class: PhantomData, pool: PhantomData }
    }

    /// Pops the innermost pool, which `pool` proves is on top, and gives up
    /// every unit released into it, in the order they came; outer pools and
    /// what they hold are left as they are.
    pub fn pop_pool(&mut self, pool: PoolToken)
        requires
            old(self).wf(),
            pool.depth() == old(self)@.pools.len(),
            pool.depth() > 0,
        ensures
            final(self).wf(),
            final(self)@.pools == old(self)@.pools.drop_last(),
            final(self)@.objects == release_all(old(self)@.objects, old(self)@.pools.last()),
    {
        let top = self.pools.pop().unwrap();
        proof {
            assert(self@.pools =~= old(self)@.pools.drop_last());
            assert(top@ == old(self)@.pools.last());
        }
        let mut i: usize = 0;
        proof {
            assert(top@.skip(0) =~= top@);
        }
        while i < top.len()
            invariant
                self.wf(),
                old(self)@.pools.len() > 0,
                i <= top.len(),
                release_all(self@.objects, top@.skip(i as int)) == release_all(
                    old(self)@.objects,
                    top@,
                ),
                self@.pools == old(self)@.pools.drop_last(),
            decreases top.len() - i,
        {
            proof {
                assert(top@.skip(i as int).drop_first() =~= top@.skip(i + 1));
            }
            self.release_index(top[i]);
            i = i + 1;
        }
        proof {
            assert(top@.skip(i as int) =~= Seq::<usize>::empty());
        }
    }

    /// The class of the object that `h` holds.
    pub fn class_of<T: ClassType, O: Ownership>(&self, h: &Id<T, O>) -> (r: Class)
        requires
            self.wf(),
            self.holds(h),
        ensures
            r == self.object(h).class,
    {
        self.classes[h.obj]
    }

    /// The text of the object that `h` holds.
    pub fn text<T: ClassType, O: Ownership>(&self, h: &Id<T, O>) -> (r: &Vec<char>)
        requires
            self.wf(),
            self.holds(h),
        ensures
            r@ == self.object(h).text,
    {
        &self.texts[h.obj]
    }

    /// The members of the object that `h` holds.
    pub fn members<T: ClassType, O: Ownership>(&self, h: &Id<T, O>) -> (r: &Vec<usize>)
        requires
            self.wf(),
            self.holds(h),
        ensures
            r@ == self.object(h).members,
            self.all_objects(r@),
    {
        &self.members[h.obj]
    }

    /// The text of the object at `o`.
    pub fn text_at(&self, o: usize) -> (r: &Vec<char>)
        requires
            self.wf(),
            o < self@.objects.len(),
        ensures
            r@ == self@.objects[o as int].text,
    {
        &self.texts[o]
    }

    /// Replaces the text of the object that the owned handle `h` holds.
    pub fn set_text<T: ClassType>(&mut self, h: &mut Id<T, Owned>, text: Vec<char>)
        requires
            old(self).wf(),
            old(self).holds(&*old(h)),
        ensures
            final(self).wf(),
            *final(h) == *old(h),
            final(self)@.objects == old(self)@.objects.update(
                old(h).index() as int,
                ObjectView { text: text@, ..old(self).object(&*old(h)) },
            ),
            final(self)@.pools == old(self)@.pools,
    {
        let o = h.obj;
        self.texts.set(o, text);
        proof {
            assert(self@.objects =~= old(self)@.objects.update(
                o as int,
                ObjectView { text: text@, ..old(self).object(&*old(h)) },
            ));
            assert(self@.pools =~= old(self)@.pools);
        }
    }

    /// Replaces the members of the set that the owned handle `h` holds.
    pub(crate) fn set_members<T: ClassType>(&mut self, h: &mut Id<T, Owned>, members: Vec<usize>)
        requires
            old(self).wf(),
            old(self).all_objects(members@),
            old(self).holds(&*old(h)),
        ensures
            final(self).wf(),
            *final(h) == *old(h),
            final(self)@.objects == old(self)@.objects.update(
                old(h).index() as int,
                ObjectView { members: members@, ..old(self).object(&*old(h)) },
            ),
            final(self)@.pools == old(self)@.pools,
    {
        let o = h.obj;
        self.members.set(o, members);
        proof {
            assert(self@.objects =~= old(self)@.objects.update(
                o as int,
                ObjectView { members: members@, ..old(self).object(&*old(h)) },
            ));
            assert(self@.pools =~= old(self)@.pools);
        }
    }

    /// Ends the set that `set` holds without releasing its members: the
    /// unit it held on each member passes to one of the handles returned,
    /// in member order, and the set is left dead and empty.
    pub(crate) fn take_members<S: ClassType, T: ClassType, O: Ownership>(&mut self, set: Id<S, Owned>) -> (r:
        Vec<Id<T, O>>)
        requires
            old(self).wf(),
            old(self).holds(&set),
            S::spec_class() == Class::MutableSet,
            forall|j: int|
                0 <= j < old(self).object(&set).members.len() ==> {
                    let m = #[trigger] old(self).object(&set).members[j] as int;
                    old(self)@.objects[m].class == T::spec_class() && old(self)@.objects[m].unique
                        == O::is_unique()
                },
        ensures
            final(self).wf(),
            r@.len() == old(self).object(&set).members.len(),
            forall|j: int|
                0 <= j < r@.len() ==> #[trigger] r@[j].index() == old(self).object(
                    &set,
                ).members[j],
            final(self)@.objects == old(self)@.objects.update(
                set.index() as int,
                ObjectView {
                    count: 0,
                    unique: false,
                    members: Seq::empty(),
                    ..old(self).object(&set)
                },
            ),
            final(self)@.pools == old(self)@.pools,
    {
        let o = set.obj;
        let members = copy_vec(&self.members[o]);
        self.counts.set(o, 0);
        self.unique.set(o, false);
        self.members.set(o, Vec::new());
        proof {
            assert(self@.objects =~= old(self)@.objects.update(
                o as int,
                ObjectView {
                    count: 0,
                    unique: false,
                    members: Seq::empty(),
                    ..old(self).object(&set)
                },
            ));
            assert(self@.pools =~= old(self)@.pools);
        }
        let mut r: Vec<Id<T, O>> = Vec::new();
        let mut i: usize = 0;
        while i < members.len()
            invariant
                i <= members.len(),
                r@.len() == i,
                forall|j: int| 0 <= j < i ==> #[trigger] r@[j].index() == members@[j],
            decreases members.len() - i,
        {
            r.push(Id { obj: members[i], class: PhantomData, mode: PhantomData });
            i = i + 1;
        }
        r
    }

    /// Gives up one unit of the object at `m`, which a set held.
    pub(crate) fn release_at(&mut self, m: usize)
        requires
            old(self).wf(),
        ensures
            final(self).wf(),
            final(self)@.objects == release_one(old(self)@.objects, m),
            final(self)@.pools == old(self)@.pools,
    {
        self.release_index(m);
    }
}

} // verus!
