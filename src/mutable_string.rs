//! Mutable strings: always held by an owned handle, changed only through it.
use crate::rc::{Class, ClassType, Id, Owned, Ownership, Runtime, copy_vec, grows_by_one};
use crate::string::{NSString, chars_of, is_text_class};
use vstd::prelude::*;

verus! {

/// The class of mutable strings.
pub struct NSMutableString;

impl ClassType for NSMutableString {
    open spec fn spec_class() -> Class {
        Class::MutableString
    }

    fn class() -> (r: Class) {
        Class::MutableString
    }
}

/// What a change of text promises: only the text of the object that `h`
/// holds changes, to `text`.
pub open spec fn text_becomes<T: ClassType>(
    before: Runtime,
    after: Runtime,
    h: Id<T, Owned>,
    text: Seq<char>,
) -> bool {
    &&& after.wf()
    &&& after.holds(&h)
    &&& after@.objects == before@.objects.update(
        h.index() as int,
        crate::rc::ObjectView { text: text, ..before.object(&h) },
    )
    &&& after@.pools == before@.pools
}

/// Appends the characters of `extra` to `text`.
fn append_chars(text: &mut Vec<char>, extra: &Vec<char>)
    ensures
        final(text)@ == old(text)@ + extra@,
{
    let mut i: usize = 0;
    while i < extra.len()
        invariant
            i <= extra.len(),
            text@ == old(text)@ + extra@.take(i as int),
        decreases extra.len() - i,
    {
        text.push(extra[i]);
        i = i + 1;
        proof {
            assert(text@ =~= old(text)@ + extra@.take(i as int));
        }
    }
    proof {
        assert(extra@.take(i as int) =~= extra@);
    }
}

impl NSMutableString {
    fn with_text(rt: &mut Runtime, text: Vec<char>) -> (r: Id<NSMutableString, Owned>)
        requires
            old(rt).wf(),
        ensures
            grows_by_one(*old(rt), *final(rt), r, text@),
    {
        rt.alloc_text(text)
    }

    /// An empty mutable string.
    pub fn new(rt: &mut Runtime) -> (r: Id<NSMutableString, Owned>)
        requires
            old(rt).wf(),
        ensures
            grows_by_one(*old(rt), *final(rt), r, Seq::empty()),
    {
        NSMutableString::with_text(rt, Vec::new())
    }

    /// An empty mutable string; `capacity` is a hint of the length to come.
    pub fn with_capacity(rt: &mut Runtime, capacity: usize) -> (r: Id<NSMutableString, Owned>)
        requires
            old(rt).wf(),
        ensures
            grows_by_one(*old(rt), *final(rt), r, Seq::empty()),
    {
        NSMutableString::with_text(rt, Vec::with_capacity(capacity))
    }

    /// A mutable string with the characters of `string`.
    pub fn from_str(rt: &mut Runtime, string: &str) -> (r: Id<NSMutableString, Owned>)
        requires
            old(rt).wf(),
        ensures
            grows_by_one(*old(rt), *final(rt), r, string@),
    {
        let text = chars_of(string);
        NSMutableString::with_text(rt, text)
    }

    /// A new mutable string with the characters of the string `s` holds.
    pub fn from_nsstring<O: Ownership>(rt: &mut Runtime, s: &Id<NSString, O>) -> (r: Id<
        NSMutableString,
        Owned,
    >)
        requires
            old(rt).wf(),
            old(rt).holds(s),
        ensures
            grows_by_one(*old(rt), *final(rt), r, old(rt).object(s).text),
    {
        let text = copy_vec(rt.text(s));
        NSMutableString::with_text(rt, text)
    }

    /// A new mutable string with the characters of the one `s` holds.
    pub fn to_owned<O: Ownership>(rt: &mut Runtime, s: &Id<NSMutableString, O>) -> (r: Id<
        NSMutableString,
        Owned,
    >)
        requires
            old(rt).wf(),
            old(rt).holds(s),
        ensures
            grows_by_one(*old(rt), *final(rt), r, old(rt).object(s).text),
    {
        <NSMutableString as crate::copying::NSMutableCopying>::mutable_copy(rt, s)
    }

    /// Appends the characters of the string `other` holds.
    pub fn append_string<T: ClassType, O: Ownership>(
        rt: &mut Runtime,
        s: &mut Id<NSMutableString, Owned>,
        other: &Id<T, O>,
    )
        requires
            old(rt).wf(),
            old(rt).holds(&*old(s)),
            old(rt).holds(other),
            is_text_class(T::spec_class()),
        ensures
            *final(s) == *old(s),
            text_becomes(
                *old(rt),
                *final(rt),
                *old(s),
                old(rt).object(&*old(s)).text + old(rt).object(other).text,
            ),
    {
        let mut text = copy_vec(rt.text(s));
        append_chars(&mut text, rt.text(other));
        rt.set_text(s, text);
    }

    /// Appends the characters of the string `other` holds (`+=`).
    pub fn add_assign<O: Ownership>(
        rt: &mut Runtime,
        s: &mut Id<NSMutableString, Owned>,
        other: &Id<NSString, O>,
    )
        requires
            old(rt).wf(),
            old(rt).holds(&*old(s)),
            old(rt).holds(other),
        ensures
            *final(s) == *old(s),
            text_becomes(
                *old(rt),
                *final(rt),
                *old(s),
                old(rt).object(&*old(s)).text + old(rt).object(other).text,
            ),
    {
        NSMutableString::append_string(rt, s, other)
    }

    /// Replaces the characters with those of the string `other` holds.
    pub fn set_string<T: ClassType, O: Ownership>(
        rt: &mut Runtime,
        s: &mut Id<NSMutableString, Owned>,
        other: &Id<T, O>,
    )
        requires
            old(rt).wf(),
            old(rt).holds(&*old(s)),
            old(rt).holds(other),
            is_text_class(T::spec_class()),
        ensures
            *final(s) == *old(s),
            text_becomes(*old(rt), *final(rt), *old(s), old(rt).object(other).text),
    {
        let text = copy_vec(rt.text(other));
        rt.set_text(s, text);
    }

    /// Appends the characters of `string`; this never fails.
    pub fn write_str(rt: &mut Runtime, s: &mut Id<NSMutableString, Owned>, string: &str) -> (r:
        Result<(), ()>)
        requires
            old(rt).wf(),
            old(rt).holds(&*old(s)),
        ensures
            r is Ok,
            *final(s) == *old(s),
            text_becomes(*old(rt), *final(rt), *old(s), old(rt).object(&*old(s)).text + string@),
    {
        let mut text = copy_vec(rt.text(s));
        append_chars(&mut text, &chars_of(string));
        rt.set_text(s, text);
        Ok(())
    }
}

} // verus!
