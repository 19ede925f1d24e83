use std::cmp::Ordering;
use icrate::copying::NSCopying;
use icrate::rc::Runtime;
use icrate::string::NSString;

#[test]
fn lengths_in_utf8_and_utf16() {
    let mut rt = Runtime::new();
    let s = NSString::from_str(&mut rt, "a\u{20ac}\u{1f600}");
    assert_eq!(NSString::len(&rt, &s), 8);
    assert_eq!(NSString::len_utf16(&rt, &s), 4);
    assert!(!NSString::is_empty(&rt, &s));
}

#[test]
fn empty_string() {
    let mut rt = Runtime::new();
    let s = NSString::new(&mut rt);
    assert_eq!(NSString::len(&rt, &s), 0);
    assert_eq!(NSString::len_utf16(&rt, &s), 0);
    assert!(NSString::is_empty(&rt, &s));
    assert_eq!(NSString::to_string(&rt, &s), "");
    let t = NSString::from_str(&mut rt, "");
    assert!(NSString::is_empty(&rt, &t));
}

#[test]
fn copy_of_immutable_string_is_the_same_object_retained() {
    let mut rt = Runtime::new();
    let x = NSString::from_str(&mut rt, "abc");
    let y = NSString::copy(&mut rt, &x);
    assert_eq!(x.as_raw(), y.as_raw());
    assert!(NSString::eq(&rt, &x, &y));
    assert_eq!(rt.retain_count(&x), 2);
}

#[test]
fn debug_string_escapes() {
    let mut rt = Runtime::new();
    let s = NSString::from_str(&mut rt, "a\\b\n");
    assert_eq!(NSString::to_debug_string(&rt, &s), "\"a\\\\b\\n\"");
}

#[test]
fn as_str_within_a_pool() {
    let mut rt = Runtime::new();
    let s = NSString::from_str(&mut rt, "h\u{e9}");
    let pool = rt.push_pool();
    {
        let chars = NSString::as_str(&rt, &s, &pool);
        assert_eq!(chars.iter().collect::<String>(), "h\u{e9}");
    }
    rt.pop_pool(pool);
    assert_eq!(NSString::len(&rt, &s), 3);
}

#[test]
fn strings_order_by_characters() {
    let mut rt = Runtime::new();
    let abc = NSString::from_str(&mut rt, "abc");
    let abd = NSString::from_str(&mut rt, "abd");
    let ab = NSString::from_str(&mut rt, "ab");
    let abc2 = NSString::from_str(&mut rt, "abc");
    assert_eq!(NSString::cmp(&rt, &abc, &abd), Ordering::Less);
    assert_eq!(NSString::cmp(&rt, &abd, &abc), Ordering::Greater);
    assert_eq!(NSString::cmp(&rt, &ab, &abc), Ordering::Less);
    assert_eq!(NSString::cmp(&rt, &abc, &ab), Ordering::Greater);
    assert_eq!(NSString::cmp(&rt, &abc, &abc2), Ordering::Equal);
}

#[test]
fn copies_and_releases_keep_count_equal_to_live_handles() {
    let mut rt = Runtime::new();
    let h0 = NSString::from_str(&mut rt, "abc");
    assert_eq!(rt.retain_count(&h0), 1);
    let h1 = NSString::copy(&mut rt, &h0);
    let h2 = NSString::copy(&mut rt, &h1);
    assert_eq!(h2.as_raw(), h0.as_raw());
    assert_eq!(rt.retain_count(&h0), 3);
    rt.release(h1);
    assert_eq!(rt.retain_count(&h0), 2);
    rt.release(h2);
    assert_eq!(rt.retain_count(&h0), 1);
}
