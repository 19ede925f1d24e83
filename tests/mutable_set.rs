use icrate::mutable_set::NSMutableSet;
use icrate::mutable_string::NSMutableString;
use icrate::rc::Runtime;
use icrate::string::{string_of, NSString};

#[test]
fn set_insert_remove_scenario() {
    let mut rt = Runtime::new();
    let strs = vec![
        NSString::from_str(&mut rt, "one"),
        NSString::from_str(&mut rt, "two"),
        NSString::from_str(&mut rt, "three"),
    ];
    let mut set = NSMutableSet::from_vec(&mut rt, strs);
    let one = NSString::from_str(&mut rt, "one");
    assert_eq!(NSMutableSet::insert(&mut rt, &mut set, one), false);
    assert_eq!(NSMutableSet::len(&rt, &set), 3);
    let two = NSString::from_str(&mut rt, "two");
    assert_eq!(NSMutableSet::remove(&mut rt, &mut set, &two), true);
    assert_eq!(NSMutableSet::remove(&mut rt, &mut set, &two), false);
    assert_eq!(NSMutableSet::len(&rt, &set), 2);
    assert!(!NSMutableSet::contains(&rt, &set, &two));
    let three = NSString::from_str(&mut rt, "three");
    assert!(NSMutableSet::contains(&rt, &set, &three));
}

#[test]
fn new_set_is_empty_and_insert_reports_new_values() {
    let mut rt = Runtime::new();
    let mut set = NSMutableSet::new(&mut rt);
    assert!(NSMutableSet::is_empty(&rt, &set));
    let a = NSString::from_str(&mut rt, "one");
    assert_eq!(NSMutableSet::insert(&mut rt, &mut set, a), true);
    let b = NSString::from_str(&mut rt, "one");
    assert_eq!(NSMutableSet::insert(&mut rt, &mut set, b), false);
    assert_eq!(NSMutableSet::len(&rt, &set), 1);
}

#[test]
fn from_vec_keeps_one_of_equal_values() {
    let mut rt = Runtime::new();
    let strs = vec![
        NSMutableString::from_str(&mut rt, "a"),
        NSMutableString::from_str(&mut rt, "a"),
        NSMutableString::from_str(&mut rt, "b"),
    ];
    let set = NSMutableSet::from_vec(&mut rt, strs);
    assert_eq!(NSMutableSet::len(&rt, &set), 2);
}

#[test]
fn set_holds_a_unit_of_each_member() {
    let mut rt = Runtime::new();
    let a = NSString::from_str(&mut rt, "a");
    let a2 = rt.retain_shared(&a);
    let mut set = NSMutableSet::new(&mut rt);
    assert!(NSMutableSet::insert(&mut rt, &mut set, a));
    assert_eq!(rt.retain_count(&a2), 2);
    assert!(NSMutableSet::remove(&mut rt, &mut set, &a2));
    assert_eq!(rt.retain_count(&a2), 1);
}

#[test]
fn releasing_a_set_releases_its_members() {
    let mut rt = Runtime::new();
    let a = NSString::from_str(&mut rt, "a");
    let a2 = rt.retain_shared(&a);
    let mut set = NSMutableSet::new(&mut rt);
    NSMutableSet::extend(&mut rt, &mut set, vec![a]);
    assert_eq!(rt.retain_count(&a2), 2);
    rt.release(set);
    assert_eq!(rt.retain_count(&a2), 1);
}

#[test]
fn iter_gives_member_texts_in_order() {
    let mut rt = Runtime::new();
    let strs = vec![
        NSString::from_str(&mut rt, "x"),
        NSString::from_str(&mut rt, "y"),
        NSString::from_str(&mut rt, "x"),
    ];
    let x = strs[0].as_raw();
    let y = strs[1].as_raw();
    let set = NSMutableSet::from_vec(&mut rt, strs);
    let members = NSMutableSet::iter(&rt, &set);
    assert_eq!(members, &vec![x, y]);
    let texts: Vec<String> = members.iter().map(|&m| string_of(rt.text_at(m))).collect();
    assert_eq!(texts, vec!["x".to_string(), "y".to_string()]);
}

#[test]
fn into_vec_hands_members_back() {
    let mut rt = Runtime::new();
    let strs = vec![
        NSMutableString::from_str(&mut rt, "one"),
        NSMutableString::from_str(&mut rt, "two"),
        NSMutableString::from_str(&mut rt, "three"),
    ];
    let set = NSMutableSet::from_vec(&mut rt, strs);
    let v: Vec<icrate::rc::Id<NSMutableString, icrate::rc::Owned>> = NSMutableSet::into_vec(&mut rt, set);
    assert_eq!(v.len(), 3);
    assert_eq!(NSString::to_string(&rt, &v[1]), "two");
    assert_eq!(rt.retain_count(&v[0]), 1);
}

#[test]
fn from_slice_retains_and_caller_keeps_handles() {
    let mut rt = Runtime::new();
    let strs = [
        NSString::from_str(&mut rt, "one"),
        NSString::from_str(&mut rt, "two"),
        NSString::from_str(&mut rt, "one"),
    ];
    let set = NSMutableSet::from_slice(&mut rt, &strs);
    assert_eq!(NSMutableSet::len(&rt, &set), 2);
    assert_eq!(rt.retain_count(&strs[0]), 2);
    assert_eq!(rt.retain_count(&strs[1]), 2);
    assert_eq!(rt.retain_count(&strs[2]), 1);
}
