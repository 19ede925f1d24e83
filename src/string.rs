//! Immutable strings, and what every string object offers.
use crate::rc::{Class, ClassType, Id, Ownership, PoolToken, Runtime, Shared, grows_by_one};
use vstd::prelude::*;
use vstd::string::*;

verus! {

/// The class of immutable strings.
pub struct NSString;

impl ClassType for NSString {
    open spec fn spec_class() -> Class {
        Class::String
    }

    fn class() -> (r: Class) {
        Class::String
    }
}

/// Whether objects of class `c` hold text.
pub open spec fn is_text_class(c: Class) -> bool {
    c == Class::String || c == Class::MutableString
}

/// Bytes that `c` takes in UTF-8.
pub open spec fn utf8_width(c: char) -> nat {
    if (c as u32) < 0x80 {
        1
    } else if (c as u32) < 0x800 {
        2
    } else if (c as u32) < 0x10000 {
        3
    } else {
        4
    }
}

/// Code units that `c` takes in UTF-16.
pub open spec fn utf16_width(c: char) -> nat {
    if (c as u32) < 0x10000 {
        1
    } else {
        2
    }
}

/// Bytes that `s` takes in UTF-8.
pub open spec fn utf8_len(s: Seq<char>) -> nat
    decreases s.len(),
{
    if s.len() == 0 {
        0
    } else {
        utf8_len(s.drop_last()) + utf8_width(s.last())
    }
}

/// Code units that `s` takes in UTF-16.
pub open spec fn utf16_len(s: Seq<char>) -> nat
    decreases s.len(),
{
    if s.len() == 0 {
        0
    } else {
        utf16_len(s.drop_last()) + utf16_width(s.last())
    }
}

proof fn lemma_utf8_prefix(s: Seq<char>, i: int)
    requires
        0 <= i <= s.len(),
    ensures
        utf8_len(s.take(i)) <= utf8_len(s),
    decreases s.len() - i,
{
    if i < s.len() {
        lemma_utf8_prefix(s, i + 1);
        assert(s.take(i + 1).drop_last() =~= s.take(i));
    } else {
        assert(s.take(i) =~= s);
    }
}

proof fn lemma_utf16_prefix(s: Seq<char>, i: int)
    requires
        0 <= i <= s.len(),
    ensures
        utf16_len(s.take(i)) <= utf16_len(s),
    decreases s.len() - i,
{
    if i < s.len() {
        lemma_utf16_prefix(s, i + 1);
        assert(s.take(i + 1).drop_last() =~= s.take(i));
    } else {
        assert(s.take(i) =~= s);
    }
}

fn utf8_width_of(c: char) -> (r: usize)
    ensures
        r == utf8_width(c),
{
    let v = c as u32;
    if v < 0x80 {
        1
    } else if v < 0x800 {
        2
    } else if v < 0x10000 {
        3
    } else {
        4
    }
}

fn utf16_width_of(c: char) -> (r: usize)
    ensures
        r == utf16_width(c),
{
    if (c as u32) < 0x10000 {
        1
    } else {
        2
    }
}

/// The characters of `s`, in order.
pub fn chars_of(s: &str) -> (r: Vec<char>)
    ensures
        r@ == s@,
{
    let n = s.unicode_len();
    let mut r: Vec<char> = Vec::new();
    let mut i: usize = 0;
    while i < n
        invariant
            n == s@.len(),
            i <= n,
            r@ == s@.take(i as int),
        decreases n - i,
    {
        r.push(s.get_char(i));
        i = i + 1;
        proof {
            assert(r@ =~= s@.take(i as int));
        }
    }
    proof {
        assert(s@.take(i as int) =~= s@);
    }
    r
}

/// Whether `a` and `b` hold the same characters.
pub fn chars_eq(a: &Vec<char>, b: &Vec<char>) -> (r: bool)
    ensures
        r == (a@ == b@),
{
    if a.len() != b.len() {
        return false;
    }
    let mut i: usize = 0;
    while i < a.len()
        invariant
            a.len() == b.len(),
            i <= a.len(),
            a@.take(i as int) == b@.take(i as int),
        decreases a.len() - i,
    {
        if a[i] != b[i] {
            assert(a@[i as int] != b@[i as int]);
            return false;
        }
        i = i + 1;
        proof {
            assert(a@.take(i as int) =~= b@.take(i as int));
        }
    }
    proof {
        assert(a@ =~= a@.take(i as int));
        assert(b@ =~= b@.take(i as int));
    }
    true
}

/// Names the text that `{:?}` gives for a string: the string quoted, with
/// quotes, backslashes and control characters escaped.
pub uninterp spec fn debug_quoted_of(s: Seq<char>) -> Seq<char>;

/// Relies on the `Debug` impl of `String` to quote and escape the text.
#[verifier::external_body]
pub(crate) fn debug_quoted(s: &String) -> (r: String)
    ensures
        r@ == debug_quoted_of(s@),
{
    format!("{:?}", s)
}

/// The order of `a` and `b`: character by character, by code point, a
/// proper prefix first.
pub open spec fn compare_chars(a: Seq<char>, b: Seq<char>) -> core::cmp::Ordering
    decreases a.len(),
{
    if a.len() == 0 {
        if b.len() == 0 {
            core::cmp::Ordering::Equal
        } else {
            core::cmp::Ordering::Less
        }
    } else if b.len() == 0 {
        core::cmp::Ordering::Greater
    } else if (a[0] as u32) < (b[0] as u32) {
        core::cmp::Ordering::Less
    } else if (a[0] as u32) > (b[0] as u32) {
        core::cmp::Ordering::Greater
    } else {
        compare_chars(a.drop_first(), b.drop_first())
    }
}

fn compare_vecs(a: &Vec<char>, b: &Vec<char>) -> (r: core::cmp::Ordering)
    ensures
        r == compare_chars(a@, b@),
{
    let mut i: usize = 0;
    proof {
        assert(a@.skip(0) =~= a@);
        assert(b@.skip(0) =~= b@);
    }
    while i < a.len() && i < b.len()
        invariant
            i <= a.len(),
            i <= b.len(),
            compare_chars(a@.skip(i as int), b@.skip(i as int)) == compare_chars(a@, b@),
        decreases a.len() - i,
    {
        let x = a[i] as u32;
        let y = b[i] as u32;
        proof {
            assert(a@.skip(i as int)[0] == a@[i as int]);
            assert(b@.skip(i as int)[0] == b@[i as int]);
        }
        if x < y {
            return core::cmp::Ordering::Less;
        } else if x > y {
            return core::cmp::Ordering::Greater;
        }
        proof {
            assert(a@.skip(i as int).drop_first() =~= a@.skip(i + 1));
            assert(b@.skip(i as int).drop_first() =~= b@.skip(i + 1));
        }
        i = i + 1;
    }
    if i < b.len() {
        core::cmp::Ordering::Less
    } else if i < a.len() {
        core::cmp::Ordering::Greater
    } else {
        core::cmp::Ordering::Equal
    }
}

/// Relies on `String::push`: it appends `c` to the text.
#[verifier::external_body]
fn push_char(s: &mut String, c: char)
    ensures
        final(s)@ == old(s)@.push(c),
{
    s.push(c)
}

/// The text of `v` as a `String`.
pub fn string_of(v: &Vec<char>) -> (r: String)
    ensures
        r@ == v@,
{
    let mut r = String::new();
    let mut i: usize = 0;
    while i < v.len()
        invariant
            i <= v.len(),
            r@ == v@.take(i as int),
        decreases v.len() - i,
    {
        push_char(&mut r, v[i]);
        i = i + 1;
        proof {
            assert(r@ =~= v@.take(i as int));
        }
    }
    proof {
        assert(v@.take(i as int) =~= v@);
    }
    r
}

impl NSString {
    /// An empty immutable string.
    pub fn new(rt: &mut Runtime) -> (r: Id<NSString, Shared>)
        requires
            old(rt).wf(),
        ensures
            grows_by_one(*old(rt), *final(rt), r, Seq::<char>::empty()),
    {
        rt.alloc_text(Vec::new())
    }

    /// An immutable string with the characters of `string`.
    pub fn from_str(rt: &mut Runtime, string: &str) -> (r: Id<NSString, Shared>)
        requires
            old(rt).wf(),
        ensures
            grows_by_one(*old(rt), *final(rt), r, string@),
    {
        let text = chars_of(string);
        rt.alloc_text(text)
    }

    /// The number of UTF-8 code units in the string that `s` holds.
    pub fn len<T: ClassType, O: Ownership>(rt: &Runtime, s: &Id<T, O>) -> (r: usize)
        requires
            rt.wf(),
            rt.holds(s),
            is_text_class(T::spec_class()),
            utf8_len(rt.object(s).text) <= usize::MAX,
        ensures
            r == utf8_len(rt.object(s).text),
    {
        let text = rt.text(s);
        let mut n: usize = 0;
        let mut i: usize = 0;
        while i < text.len()
            invariant
                i <= text.len(),
                n == utf8_len(text@.take(i as int)),
                utf8_len(text@) <= usize::MAX,
            decreases text.len() - i,
        {
            proof {
                lemma_utf8_prefix(text@, i + 1);
                assert(text@.take(i + 1).drop_last() =~= text@.take(i as int));
            }
            n = n + utf8_width_of(text[i]);
            i = i + 1;
        }
        proof {
            assert(text@.take(i as int) =~= text@);
        }
        n
    }

    /// The number of UTF-16 code units in the string that `s` holds.
    pub fn len_utf16<T: ClassType, O: Ownership>(rt: &Runtime, s: &Id<T, O>) -> (r: usize)
        requires
            rt.wf(),
            rt.holds(s),
            is_text_class(T::spec_class()),
            utf16_len(rt.object(s).text) <= usize::MAX,
        ensures
            r == utf16_len(rt.object(s).text),
    {
        let text = rt.text(s);
        let mut n: usize = 0;
        let mut i: usize = 0;
        while i < text.len()
            invariant
                i <= text.len(),
                n == utf16_len(text@.take(i as int)),
                utf16_len(text@) <= usize::MAX,
            decreases text.len() - i,
        {
            proof {
                lemma_utf16_prefix(text@, i + 1);
                assert(text@.take(i + 1).drop_last() =~= text@.take(i as int));
            }
            n = n + utf16_width_of(text[i]);
            i = i + 1;
        }
        proof {
            assert(text@.take(i as int) =~= text@);
        }
        n
    }

    /// Whether the string that `s` holds has no characters.
    pub fn is_empty<T: ClassType, O: Ownership>(rt: &Runtime, s: &Id<T, O>) -> (r: bool)
        requires
            rt.wf(),
            rt.holds(s),
            is_text_class(T::spec_class()),
        ensures
            r == (rt.object(s).text.len() == 0),
    {
        rt.text(s).len() == 0
    }

    /// The order of the strings that `a` and `b` hold: character by
    /// character, by code point, a proper prefix first.
    pub fn cmp<T: ClassType, O: Ownership, U: ClassType, P: Ownership>(
        rt: &Runtime,
        a: &Id<T, O>,
        b: &Id<U, P>,
    ) -> (r: core::cmp::Ordering)
        requires
            rt.wf(),
            rt.holds(a),
            rt.holds(b),
            is_text_class(T::spec_class()),
            is_text_class(U::spec_class()),
        ensures
            r == compare_chars(rt.object(a).text, rt.object(b).text),
    {
        compare_vecs(rt.text(a), rt.text(b))
    }

    /// Whether the strings that `a` and `b` hold have the same characters.
    pub fn eq<T: ClassType, O: Ownership, U: ClassType, P: Ownership>(
        rt: &Runtime,
        a: &Id<T, O>,
        b: &Id<U, P>,
    ) -> (r: bool)
        requires
            rt.wf(),
            rt.holds(a),
            rt.holds(b),
            is_text_class(T::spec_class()),
            is_text_class(U::spec_class()),
        ensures
            r == (rt.object(a).text == rt.object(b).text),
    {
        chars_eq(rt.text(a), rt.text(b))
    }

    /// The characters of the string that `s` holds, borrowed for no longer
    /// than both the store and the release pool whose token is given.
    pub fn as_str<'r, 's: 'r, 'p: 'r, T: ClassType, O: Ownership>(
        rt: &'s Runtime,
        s: &Id<T, O>,
        _pool: &'p PoolToken,
    ) -> (r: &'r Vec<char>)
        requires
            rt.wf(),
            rt.holds(s),
            is_text_class(T::spec_class()),
        ensures
            r@ == rt.object(s).text,
    {
        rt.text(s)
    }

    /// The text of the string that `s` holds, quoted and escaped as `{:?}`
    /// shows a string.
    pub fn to_debug_string<T: ClassType, O: Ownership>(rt: &Runtime, s: &Id<T, O>) -> (r: String)
        requires
            rt.wf(),
            rt.holds(s),
            is_text_class(T::spec_class()),
        ensures
            r@ == debug_quoted_of(rt.object(s).text),
    {
        let text = string_of(rt.text(s));
        debug_quoted(&text)
    }

    /// The text of the string that `s` holds.
    pub fn to_string<T: ClassType, O: Ownership>(rt: &Runtime, s: &Id<T, O>) -> (r: String)
        requires
            rt.wf(),
            rt.holds(s),
            is_text_class(T::spec_class()),
        ensures
            r@ == rt.object(s).text,
    {
        string_of(rt.text(s))
    }
}

} // verus!
