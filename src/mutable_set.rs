//! Mutable sets of strings: always held by an owned handle, changed only
//! through it. A set holds one unit of each member; members are told apart
//! by their text.
use crate::rc::{
    Class, ClassType, Id, ObjectView, Owned, Ownership, Runtime, Shared, copy_vec,
    lemma_release_one_shape, release_one, retained, same_shape,
};
use crate::string::{chars_eq, is_text_class};
use vstd::prelude::*;

verus! {

/// The class of mutable sets.
pub struct NSMutableSet;

impl ClassType for NSMutableSet {
    open spec fn spec_class() -> Class {
        Class::MutableSet
    }

    fn class() -> (r: Class) {
        Class::MutableSet
    }
}

/// Whether one of `members` has the text `text`.
pub open spec fn has_text(objects: Seq<ObjectView>, members: Seq<usize>, text: Seq<char>) -> bool {
    exists|i: int| 0 <= i < members.len() && objects[members[i] as int].text == text
}

/// The store after the set at `s` is given the object at `v` and its unit:
/// kept as a new member where no member has its text, released otherwise.
pub open spec fn insert_into(objects: Seq<ObjectView>, s: usize, v: usize) -> Seq<ObjectView> {
    if has_text(objects, objects[s as int].members, objects[v as int].text) {
        release_one(objects, v)
    } else {
        objects.update(
            s as int,
            ObjectView { members: objects[s as int].members.push(v), ..objects[s as int] },
        )
    }
}

proof fn lemma_insert_into_shape(objects: Seq<ObjectView>, s: usize, v: usize)
    requires
        s < objects.len(),
    ensures
        same_shape(objects, insert_into(objects, s, v)),
{
    lemma_release_one_shape(objects, v);
}

/// The store after the set at `s` is given each of `vs`, in order.
pub open spec fn insert_all(objects: Seq<ObjectView>, s: usize, vs: Seq<usize>) -> Seq<
    ObjectView,
>
    decreases vs.len(),
{
    if vs.len() == 0 {
        objects
    } else {
        insert_all(insert_into(objects, s, vs[0]), s, vs.drop_first())
    }
}

/// The store after the set at `s` is given, in order, one more unit of
/// each of `vs`, as `insert_into` gives it.
pub open spec fn retain_insert_all(objects: Seq<ObjectView>, s: usize, vs: Seq<usize>) -> Seq<
    ObjectView,
>
    decreases vs.len(),
{
    if vs.len() == 0 {
        objects
    } else {
        retain_insert_all(insert_into(retained(objects, vs[0]), s, vs[0]), s, vs.drop_first())
    }
}

/// The indices of the objects that `hs` hold.
pub open spec fn indices<T, O>(hs: Seq<Id<T, O>>) -> Seq<usize> {
    hs.map_values(|h: Id<T, O>| h.index())
}

/// The first of `members` whose text is `text`.
fn find_text(rt: &Runtime, members: &Vec<usize>, text: &Vec<char>) -> (r: Option<usize>)
    requires
        rt.wf(),
        rt.all_objects(members@),
    ensures
        match r {
            Some(i) => i < members.len() && rt@.objects[members@[i as int] as int].text == text@,
            None => !has_text(rt@.objects, members@, text@),
        },
{
    let mut i: usize = 0;
    while i < members.len()
        invariant
            rt.wf(),
            rt.all_objects(members@),
            i <= members.len(),
            forall|j: int| 0 <= j < i ==> rt@.objects[members@[j] as int].text != text@,
        decreases members.len() - i,
    {
        if chars_eq(rt.text_at(members[i]), text) {
            return Some(i);
        }
        i = i + 1;
    }
    None
}

impl NSMutableSet {
    /// An empty set.
    pub fn new(rt: &mut Runtime) -> (r: Id<NSMutableSet, Owned>)
        requires
            old(rt).wf(),
        ensures
            final(rt).wf(),
            final(rt).holds(&r),
            r.index() == old(rt)@.objects.len(),
            final(rt)@.objects == old(rt)@.objects.push(
                ObjectView {
                    class: Class::MutableSet,
                    text: Seq::empty(),
                    members: Seq::empty(),
                    count: 1,
                    unique: true,
                },
            ),
            final(rt)@.pools == old(rt)@.pools,
    {
        rt.alloc_set(Vec::new())
    }

    fn insert_index(rt: &mut Runtime, set: &mut Id<NSMutableSet, Owned>, v: usize) -> (r: bool)
        requires
            old(rt).wf(),
            old(rt).holds(&*old(set)),
            v < old(rt)@.objects.len(),
            is_text_class(old(rt)@.objects[v as int].class),
        ensures
            final(rt).wf(),
            *final(set) == *old(set),
            final(rt).holds(&*final(set)),
            final(rt)@.objects == insert_into(old(rt)@.objects, old(set).index(), v),
            final(rt)@.pools == old(rt)@.pools,
            r == !has_text(
                old(rt)@.objects,
                old(rt).object(&*old(set)).members,
                old(rt)@.objects[v as int].text,
            ),
    {
        let members = copy_vec(rt.members(set));
        let found = find_text(rt, &members, rt.text_at(v));
        match found {
            Some(_) => {
                rt.release_at(v);
                false
            },
            None => {
                let mut members = members;
                members.push(v);
                rt.set_members(set, members);
                true
            },
        }
    }

    /// Adds `value` to the set and takes over its unit; where a member
    /// already has the same text, `value` is released instead. Returns
    /// whether it was added.
    pub fn insert<T: ClassType, O: Ownership>(
        rt: &mut Runtime,
        set: &mut Id<NSMutableSet, Owned>,
        value: Id<T, O>,
    ) -> (r: bool)
        requires
            old(rt).wf(),
            old(rt).holds(&*old(set)),
            old(rt).holds(&value),
            is_text_class(T::spec_class()),
        ensures
            final(rt).wf(),
            *final(set) == *old(set),
            final(rt).holds(&*final(set)),
            final(rt)@.objects == insert_into(old(rt)@.objects, old(set).index(), value.index()),
            final(rt)@.pools == old(rt)@.pools,
            r == !has_text(
                old(rt)@.objects,
                old(rt).object(&*old(set)).members,
                old(rt).object(&value).text,
            ),
    {
        NSMutableSet::insert_index(rt, set, value.as_raw())
    }

    /// Whether a member has the text of the string `value` holds.
    pub fn contains<T: ClassType, O: Ownership>(
        rt: &Runtime,
        set: &Id<NSMutableSet, Owned>,
        value: &Id<T, O>,
    ) -> (r: bool)
        requires
            rt.wf(),
            rt.holds(set),
            rt.holds(value),
        ensures
            r == has_text(rt@.objects, rt.object(set).members, rt.object(value).text),
    {
        find_text(rt, rt.members(set), rt.text(value)).is_some()
    }

    /// Removes the member with the text of the string `value` holds, and
    /// gives up the set's unit of it. Returns whether there was one.
    pub fn remove<T: ClassType, O: Ownership>(
        rt: &mut Runtime,
        set: &mut Id<NSMutableSet, Owned>,
        value: &Id<T, O>,
    ) -> (r: bool)
        requires
            old(rt).wf(),
            old(rt).holds(&*old(set)),
            old(rt).holds(value),
        ensures
            final(rt).wf(),
            *final(set) == *old(set),
            r == has_text(
                old(rt)@.objects,
                old(rt).object(&*old(set)).members,
                old(rt).object(value).text,
            ),
            !r ==> final(rt)@ == old(rt)@,
            r ==> exists|i: int|
                0 <= i < old(rt).object(&*old(set)).members.len()
                    && old(rt)@.objects[old(rt).object(&*old(set)).members[i] as int].text
                    == old(rt).object(value).text
                    && final(rt)@.objects == release_one(
                    old(rt)@.objects.update(
                        old(set).index() as int,
                        ObjectView {
                            members: old(rt).object(&*old(set)).members.remove(i),
                            ..old(rt).object(&*old(set))
                        },
                    ),
                    old(rt).object(&*old(set)).members[i],
                ),
            final(rt)@.pools == old(rt)@.pools,
    {
        let members = copy_vec(rt.members(set));
        let found = find_text(rt, &members, rt.text(value));
        match found {
            Some(i) => {
                let mut members = members;
                let m = members.remove(i);
                rt.set_members(set, members);
                rt.release_at(m);
                true
            },
            None => false,
        }
    }

    /// The number of members.
    pub fn len(rt: &Runtime, set: &Id<NSMutableSet, Owned>) -> (r: usize)
        requires
            rt.wf(),
            rt.holds(set),
        ensures
            r == rt.object(set).members.len(),
    {
        rt.members(set).len()
    }

    /// The members, in the order the set keeps them: item `i` is the index
    /// of member `i` in the store, borrowed for as long as the store is.
    pub fn iter<'a>(rt: &'a Runtime, set: &Id<NSMutableSet, Owned>) -> (r: &'a Vec<usize>)
        requires
            rt.wf(),
            rt.holds(set),
        ensures
            r@ == rt.object(set).members,
            rt.all_objects(r@),
    {
        rt.members(set)
    }

    /// The members, in the order the set keeps them, each now held by one
    /// of the handles returned, which take over the set's units; the set
    /// itself is gone.
    pub fn into_vec<T: ClassType, O: Ownership>(rt: &mut Runtime, set: Id<NSMutableSet, Owned>) -> (r:
        Vec<Id<T, O>>)
        requires
            old(rt).wf(),
            old(rt).holds(&set),
            forall|j: int|
                0 <= j < old(rt).object(&set).members.len() ==> {
                    let m = #[trigger] old(rt).object(&set).members[j] as int;
                    old(rt)@.objects[m].class == T::spec_class() && old(rt)@.objects[m].unique
                        == O::is_unique()
                },
        ensures
            final(rt).wf(),
            indices(r@) == old(rt).object(&set).members,
            final(rt)@.objects == old(rt)@.objects.update(
                set.index() as int,
                ObjectView {
                    count: 0,
                    unique: false,
                    members: Seq::empty(),
                    ..old(rt).object(&set)
                },
            ),
            final(rt)@.pools == old(rt)@.pools,
    {
        let r = rt.take_members(set);
        proof {
            assert(indices(r@) =~= old(rt).object(&set).members);
        }
        r
    }

    /// Whether the set has no member.
    pub fn is_empty(rt: &Runtime, set: &Id<NSMutableSet, Owned>) -> (r: bool)
        requires
            rt.wf(),
            rt.holds(set),
        ensures
            r == (rt.object(set).members.len() == 0),
    {
        rt.members(set).len() == 0
    }

    /// Gives the set each of `values`, in order, as `insert` does.
    pub fn extend<T: ClassType, O: Ownership>(
        rt: &mut Runtime,
        set: &mut Id<NSMutableSet, Owned>,
        values: Vec<Id<T, O>>,
    )
        requires
            old(rt).wf(),
            old(rt).holds(&*old(set)),
            is_text_class(T::spec_class()),
            forall|i: int| 0 <= i < values@.len() ==> old(rt).holds(&values@[i]),
        ensures
            final(rt).wf(),
            *final(set) == *old(set),
            final(rt).holds(&*final(set)),
            final(rt)@.objects == insert_all(old(rt)@.objects, old(set).index(), indices(values@)),
            final(rt)@.pools == old(rt)@.pools,
    {
        let ghost vs = indices(values@);
        let mut i: usize = 0;
        proof {
            assert(vs.skip(0) =~= vs);
        }
        while i < values.len()
            invariant
                rt.wf(),
                *set == *old(set),
                rt.holds(&*set),
                i <= values.len(),
                vs == indices(values@),
                same_shape(old(rt)@.objects, rt@.objects),
                is_text_class(T::spec_class()),
                forall|j: int| 0 <= j < values@.len() ==> old(rt).holds(&values@[j]),
                insert_all(rt@.objects, set.index(), vs.skip(i as int)) == insert_all(
                    old(rt)@.objects,
                    old(set).index(),
                    vs,
                ),
                rt@.pools == old(rt)@.pools,
            decreases values.len() - i,
        {
            proof {
                assert(vs.skip(i as int).drop_first() =~= vs.skip(i + 1));
            }
            let v = values[i].as_raw();
            proof {
                assert(old(rt).holds(&values@[i as int]));
                assert(rt@.objects[v as int].class == old(rt)@.objects[v as int].class);
                lemma_insert_into_shape(rt@.objects, set.index(), v);
            }
            NSMutableSet::insert_index(rt, set, v);
            i = i + 1;
        }
        proof {
            assert(vs.skip(i as int) =~= Seq::<usize>::empty());
        }
    }

    /// A new set given one more unit of each of the shared `values`, in
    /// order, as `insert` takes it; the caller keeps its own handles.
    pub fn from_slice<T: ClassType>(rt: &mut Runtime, values: &[Id<T, Shared>]) -> (r: Id<
        NSMutableSet,
        Owned,
    >)
        requires
            old(rt).wf(),
            is_text_class(T::spec_class()),
            forall|i: int|
                #![trigger values@[i]]
                0 <= i < values@.len() ==> old(rt).holds(&values@[i]) && old(rt).object(
                    &values@[i],
                ).count + values@.len() < u64::MAX,
        ensures
            final(rt).wf(),
            final(rt).holds(&r),
            r.index() == old(rt)@.objects.len(),
            final(rt)@.objects == retain_insert_all(
                old(rt)@.objects.push(
                    ObjectView {
                        class: Class::MutableSet,
                        text: Seq::empty(),
                        members: Seq::empty(),
                        count: 1,
                        unique: true,
                    },
                ),
                r.index(),
                indices(values@),
            ),
            final(rt)@.pools == old(rt)@.pools,
    {
        let mut set = NSMutableSet::new(rt);
        let ghost start = rt@.objects;
        let ghost vs = indices(values@);
        proof {
            assert(vs.skip(0) =~= vs);
        }
        let mut i: usize = 0;
        while i < values.len()
            invariant
                rt.wf(),
                rt.holds(&set),
                set.index() == old(rt)@.objects.len(),
                rt@.objects.len() == old(rt)@.objects.len() + 1,
                is_text_class(T::spec_class()),
                i <= values@.len(),
                vs == indices(values@),
                forall|j: int|
                    #![trigger values@[j]]
                    0 <= j < values@.len() ==> old(rt).holds(&values@[j]) && old(rt).object(
                        &values@[j],
                    ).count + values@.len() < u64::MAX,
                forall|j: int|
                    #![trigger values@[j]]
                    0 <= j < values@.len() ==> rt.holds(&values@[j]) && rt.object(
                        &values@[j],
                    ).count <= old(rt).object(&values@[j]).count + i,
                retain_insert_all(rt@.objects, set.index(), vs.skip(i as int))
                    == retain_insert_all(start, set.index(), vs),
                rt@.pools == old(rt)@.pools,
            decreases values.len() - i,
        {
            proof {
                assert(vs.skip(i as int).drop_first() =~= vs.skip(i + 1));
                assert(vs.skip(i as int)[0] == values@[i as int].index());
            }
            let extra = rt.retain_shared(&values[i]);
            NSMutableSet::insert(rt, &mut set, extra);
            proof {
                assert forall|j: int|
                    #![trigger values@[j]]
                    0 <= j < values@.len() implies rt.holds(&values@[j]) && rt.object(
                        &values@[j],
                    ).count <= old(rt).object(&values@[j]).count + i + 1 by {
                    let w = values@[j];
                    assert(w.index() != set.index());
                }
            }
            i = i + 1;
        }
        proof {
            assert(vs.skip(i as int) =~= Seq::<usize>::empty());
        }
        set
    }

    /// A new set given each of `values`, in order, as `insert` does.
    pub fn from_vec<T: ClassType, O: Ownership>(rt: &mut Runtime, values: Vec<Id<T, O>>) -> (r:
        Id<NSMutableSet, Owned>)
        requires
            old(rt).wf(),
            is_text_class(T::spec_class()),
            forall|i: int| 0 <= i < values@.len() ==> old(rt).holds(&values@[i]),
        ensures
            final(rt).wf(),
            final(rt).holds(&r),
            r.index() == old(rt)@.objects.len(),
            final(rt)@.objects == insert_all(
                old(rt)@.objects.push(
                    ObjectView {
                        class: Class::MutableSet,
                        text: Seq::empty(),
                        members: Seq::empty(),
                        count: 1,
                        unique: true,
                    },
                ),
                r.index(),
                indices(values@),
            ),
            final(rt)@.pools == old(rt)@.pools,
    {
        let mut set = NSMutableSet::new(rt);
        NSMutableSet::extend(rt, &mut set, values);
        set
    }
}

} // verus!
