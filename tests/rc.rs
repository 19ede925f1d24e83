use icrate::mutable_string::NSMutableString;
use icrate::rc::Runtime;
use icrate::string::NSString;

#[test]
fn count_follows_retains_and_releases() {
    let mut rt = Runtime::new();
    let a = NSString::from_str(&mut rt, "x");
    assert_eq!(rt.retain_count(&a), 1);
    let b = rt.retain_shared(&a);
    let c = rt.retain_shared(&b);
    assert_eq!(rt.retain_count(&a), 3);
    rt.release(b);
    assert_eq!(rt.retain_count(&a), 2);
    rt.release(c);
    assert_eq!(rt.retain_count(&a), 1);
}

#[test]
fn downgrade_keeps_the_unit() {
    let mut rt = Runtime::new();
    let m = NSMutableString::from_str(&mut rt, "x");
    assert_eq!(rt.retain_count(&m), 1);
    let s = rt.downgrade(m);
    assert_eq!(rt.retain_count(&s), 1);
    let t = rt.retain_shared(&s);
    assert_eq!(rt.retain_count(&t), 2);
}

#[test]
fn inner_pool_releases_before_outer() {
    let mut rt = Runtime::new();
    let a = NSString::from_str(&mut rt, "a");
    let a_kept = rt.retain_shared(&a);
    let b = NSString::from_str(&mut rt, "b");
    let b_kept = rt.retain_shared(&b);

    let outer = rt.push_pool();
    let _va = rt.autorelease(a, &outer);
    let inner = rt.push_pool();
    let _vb = rt.autorelease(b, &inner);
    assert_eq!(rt.retain_count(&a_kept), 2);
    assert_eq!(rt.retain_count(&b_kept), 2);

    rt.pop_pool(inner);
    assert_eq!(rt.retain_count(&b_kept), 1);
    assert_eq!(rt.retain_count(&a_kept), 2);

    rt.pop_pool(outer);
    assert_eq!(rt.retain_count(&a_kept), 1);
}

#[test]
fn borrowed_view_names_the_released_object() {
    let mut rt = Runtime::new();
    let a = NSString::from_str(&mut rt, "a");
    let raw = a.as_raw();
    let pool = rt.push_pool();
    let view = rt.autorelease(a, &pool);
    assert_eq!(view.as_raw(), raw);
    rt.pop_pool(pool);
}
