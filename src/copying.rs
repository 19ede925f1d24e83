//! The copy contracts: `copy` may hand back the same object where the class
//! is immutable, `mutable_copy` always hands back a new one.
use crate::mutable_string::NSMutableString;
use crate::rc::{ClassType, Id, Owned, Ownership, Runtime, Shared, copy_vec, grows_by_one, retained};
use crate::string::{NSString, is_text_class};
use vstd::prelude::*;

verus! {

/// Classes whose objects can be copied.
///
/// Where `Ownership` is `Owned`, `copy` must make a new object: the handle
/// it returns is the only one to its object.
pub trait NSCopying: ClassType + Sized {
    /// The mode of the copies: `Shared` where copies may alias.
    type Ownership: Ownership;

    /// The class of the copies.
    type Output: ClassType;

    /// Whether a copy made through a handle that is (`unique`) or is not
    /// the only one to its object is the object itself, retained once more,
    /// rather than a new object.
    spec fn copy_aliases(unique: bool) -> bool;

    /// A copy with the same text. Where `copy_aliases` holds it is the
    /// object itself, whose count grows by one; otherwise it is a new
    /// object with a count of one. Nothing else in the store changes.
    fn copy<O: Ownership>(rt: &mut Runtime, this: &Id<Self, O>) -> (r: Id<
        Self::Output,
        Self::Ownership,
    >)
        requires
            old(rt).wf(),
            old(rt).holds(this),
            is_text_class(Self::spec_class()),
            Self::copy_aliases(O::is_unique()) ==> old(rt).object(this).count < u64::MAX,
        ensures
            final(rt).wf(),
            final(rt).holds(&r),
            final(rt).holds(this),
            final(rt)@.pools == old(rt)@.pools,
            final(rt).object(&r).text == old(rt).object(this).text,
            <Self::Ownership as Ownership>::is_unique() ==> !Self::copy_aliases(O::is_unique()),
            Self::copy_aliases(O::is_unique()) ==> r.index() == this.index() && final(rt)@.objects
                == retained(old(rt)@.objects, this.index()),
            !Self::copy_aliases(O::is_unique()) ==> grows_by_one(
                *old(rt),
                *final(rt),
                r,
                old(rt).object(this).text,
            ),
    ;
}

/// Classes whose objects can be copied into a new, owned, mutable object.
pub trait NSMutableCopying: ClassType + Sized {
    /// The class of the copies.
    type Output: ClassType;

    /// A new object with the same text and a count of one, held by the
    /// only handle to it.
    fn mutable_copy<O: Ownership>(rt: &mut Runtime, this: &Id<Self, O>) -> (r: Id<
        Self::Output,
        Owned,
    >)
        requires
            old(rt).wf(),
            old(rt).holds(this),
            is_text_class(Self::spec_class()),
        ensures
            grows_by_one(*old(rt), *final(rt), r, old(rt).object(this).text),
    ;
}

impl NSCopying for NSString {
    type Ownership = Shared;

    type Output = NSString;

    /// A string held by a shared handle is never changed, so its copy is the
    /// string itself; one held by an owned handle is copied into a new
    /// string, as that handle must stay the only one.
    open spec fn copy_aliases(unique: bool) -> bool {
        !unique
    }

    fn copy<O: Ownership>(rt: &mut Runtime, this: &Id<NSString, O>) -> (r: Id<
        NSString,
        Shared,
    >) {
        if O::unique() {
            let text = copy_vec(rt.text(this));
            rt.alloc_text(text)
        } else {
            rt.retain(this)
        }
    }
}

impl NSCopying for NSMutableString {
    type Ownership = Owned;

    type Output = NSString;

    /// A mutable string may change later, so its copy is always a new
    /// immutable string, held by the only handle to it.
    open spec fn copy_aliases(unique: bool) -> bool {
        false
    }

    fn copy<O: Ownership>(rt: &mut Runtime, this: &Id<NSMutableString, O>) -> (r: Id<
        NSString,
        Owned,
    >) {
        let text = copy_vec(rt.text(this));
        rt.alloc_text(text)
    }
}

impl NSMutableCopying for NSString {
    type Output = NSMutableString;

    fn mutable_copy<O: Ownership>(rt: &mut Runtime, this: &Id<NSString, O>) -> (r: Id<
        NSMutableString,
        Owned,
    >) {
        let text = copy_vec(rt.text(this));
        rt.alloc_text(text)
    }
}

impl NSMutableCopying for NSMutableString {
    type Output = NSMutableString;

    fn mutable_copy<O: Ownership>(rt: &mut Runtime, this: &Id<NSMutableString, O>) -> (r: Id<
        NSMutableString,
        Owned,
    >) {
        let text = copy_vec(rt.text(this));
        rt.alloc_text(text)
    }
}

/// A mutable copy is a new object: it is not the object copied, which
/// stays as it was, and right after the copy the two have the same text.
pub proof fn mutable_copy_is_new<T: NSMutableCopying, O: Ownership>(
    before: Runtime,
    after: Runtime,
    x: Id<T, O>,
    y: Id<T::Output, Owned>,
)
    requires
        before.wf(),
        before.holds(&x),
        grows_by_one(before, after, y, before.object(&x).text),
    ensures
        y.index() != x.index(),
        after.holds(&x),
        after.object(&x) == before.object(&x),
        after.object(&y).text == after.object(&x).text,
{
}

/// A copy of an immutable string through a shared handle is the string
/// itself, retained once: the same object, with the same value and a count
/// one higher, every other object left as it was.
pub proof fn immutable_copy_is_retain(before: Runtime, x: Id<NSString, Shared>)
    requires
        before.wf(),
        before.holds(&x),
    ensures
        <NSString as NSCopying>::copy_aliases(Shared::is_unique()),
        retained(before@.objects, x.index())[x.index() as int].text == before.object(&x).text,
        retained(before@.objects, x.index())[x.index() as int].count == before.object(&x).count
            + 1,
        forall|j: int|
            0 <= j < before@.objects.len() && j != x.index() ==> #[trigger] retained(
                before@.objects,
                x.index(),
            )[j] == before@.objects[j],
{
}

} // verus!
