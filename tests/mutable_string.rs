use icrate::copying::{NSCopying, NSMutableCopying};
use icrate::mutable_string::NSMutableString;
use icrate::rc::{Class, Runtime};
use icrate::string::NSString;

#[test]
fn display_debug() {
    let mut rt = Runtime::new();
    let s = NSMutableString::from_str(&mut rt, "test\"123");
    assert_eq!(NSString::to_string(&rt, &s), "test\"123");
    assert_eq!(NSString::to_debug_string(&rt, &s), r#""test\"123""#);
}

#[test]
fn test_from_nsstring() {
    let mut rt = Runtime::new();
    let s = NSString::from_str(&mut rt, "abc");
    let s = NSMutableString::from_nsstring(&mut rt, &s);
    assert_eq!(&NSString::to_string(&rt, &s), "abc");
}

#[test]
fn test_append() {
    let mut rt = Runtime::new();
    let mut s = NSMutableString::from_str(&mut rt, "abc");
    let def = NSString::from_str(&mut rt, "def");
    NSMutableString::append_string(&mut rt, &mut s, &def);
    let ghi = NSString::from_str(&mut rt, "ghi");
    NSMutableString::add_assign(&mut rt, &mut s, &ghi);
    assert_eq!(&NSString::to_string(&rt, &s), "abcdefghi");
}

#[test]
fn test_set() {
    let mut rt = Runtime::new();
    let mut s = NSMutableString::from_str(&mut rt, "abc");
    let def = NSString::from_str(&mut rt, "def");
    NSMutableString::set_string(&mut rt, &mut s, &def);
    assert_eq!(&NSString::to_string(&rt, &s), "def");
}

#[test]
fn test_with_capacity() {
    let mut rt = Runtime::new();
    let mut s = NSMutableString::with_capacity(&mut rt, 3);
    let abc = NSString::from_str(&mut rt, "abc");
    NSMutableString::add_assign(&mut rt, &mut s, &abc);
    let def = NSString::from_str(&mut rt, "def");
    NSMutableString::add_assign(&mut rt, &mut s, &def);
    assert_eq!(&NSString::to_string(&rt, &s), "abcdef");
}

#[test]
fn test_copy() {
    let mut rt = Runtime::new();
    let s1 = NSMutableString::from_str(&mut rt, "abc");
    let s2 = NSMutableString::copy(&mut rt, &s1);
    assert_ne!(s1.as_raw(), s2.as_raw());
    assert!(rt.class_of(&s2) == Class::String);

    let s3 = NSMutableString::mutable_copy(&mut rt, &s1);
    assert_ne!(s1.as_raw(), s3.as_raw());
    assert!(rt.class_of(&s3) == Class::MutableString);
}

#[test]
fn appended_mutable_string_equals_independent_string() {
    let mut rt = Runtime::new();
    let mut s = NSMutableString::from_str(&mut rt, "abc");
    let def = NSString::from_str(&mut rt, "def");
    NSMutableString::append_string(&mut rt, &mut s, &def);
    let expected = NSString::from_str(&mut rt, "abcdef");
    assert!(NSString::eq(&rt, &s, &expected));
    let other = NSString::from_str(&mut rt, "abcde");
    assert!(!NSString::eq(&rt, &s, &other));
}

#[test]
fn write_str_appends_and_never_fails() {
    let mut rt = Runtime::new();
    let mut s = NSMutableString::new(&mut rt);
    assert!(NSMutableString::write_str(&mut rt, &mut s, "x=").is_ok());
    assert!(NSMutableString::write_str(&mut rt, &mut s, "1").is_ok());
    assert_eq!(NSString::to_string(&rt, &s), "x=1");
}

#[test]
fn mutable_copy_is_a_new_object_with_equal_text() {
    let mut rt = Runtime::new();
    let mut x = NSMutableString::from_str(&mut rt, "abc");
    let y = NSMutableString::mutable_copy(&mut rt, &x);
    assert_ne!(x.as_raw(), y.as_raw());
    assert!(NSString::eq(&rt, &x, &y));
    let tail = NSString::from_str(&mut rt, "!");
    NSMutableString::append_string(&mut rt, &mut x, &tail);
    assert_eq!(NSString::to_string(&rt, &x), "abc!");
    assert_eq!(NSString::to_string(&rt, &y), "abc");
}

#[test]
fn mutable_copy_of_immutable_string() {
    let mut rt = Runtime::new();
    let x = NSString::from_str(&mut rt, "abc");
    let y = NSString::mutable_copy(&mut rt, &x);
    assert_ne!(x.as_raw(), y.as_raw());
    assert!(rt.class_of(&y) == Class::MutableString);
    assert!(NSString::eq(&rt, &x, &y));
    assert_eq!(rt.retain_count(&x), 1);
    assert_eq!(rt.retain_count(&y), 1);
}

#[test]
fn to_owned_makes_an_independent_copy() {
    let mut rt = Runtime::new();
    let x = NSMutableString::from_str(&mut rt, "q");
    let mut y = NSMutableString::to_owned(&mut rt, &x);
    assert_ne!(x.as_raw(), y.as_raw());
    let z = NSString::from_str(&mut rt, "z");
    NSMutableString::set_string(&mut rt, &mut y, &z);
    assert_eq!(NSString::to_string(&rt, &x), "q");
    assert_eq!(NSString::to_string(&rt, &y), "z");
}
