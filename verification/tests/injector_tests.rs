use picker::injector::InjectorShutdown;
use picker::picker::{Column, Picker};

fn picker() -> Picker<String> {
    Picker::new(vec![Column::new("path".to_string())], 0)
}

#[test]
fn push_through_a_live_handle_succeeds() {
    let p = picker();
    let injector = p.injector();
    assert_eq!(injector.push("a".to_string(), vec!["a".to_string()]), Ok(()));
}

#[test]
fn every_push_after_close_fails_with_shutdown() {
    let mut p = picker();
    let injector = p.injector();
    let clone_before = injector.clone();
    assert_eq!(injector.push("a".to_string(), vec!["a".to_string()]), Ok(()));
    p.close();
    assert_eq!(
        injector.push("b".to_string(), vec!["b".to_string()]),
        Err(InjectorShutdown)
    );
    assert_eq!(
        clone_before.push("c".to_string(), vec!["c".to_string()]),
        Err(InjectorShutdown)
    );
    // And they stay stale: no later push ever succeeds again.
    assert_eq!(
        injector.push("d".to_string(), vec!["d".to_string()]),
        Err(InjectorShutdown)
    );
}

#[test]
fn handles_from_before_and_after_a_bump_never_both_succeed() {
    let mut p = picker();
    let before = p.injector();
    p.close();
    let after = p.injector();
    let before_ok = before.push("x".to_string(), vec!["x".to_string()]).is_ok();
    let after_ok = after.push("y".to_string(), vec!["y".to_string()]).is_ok();
    assert!(!(before_ok && after_ok));
    assert!(!before_ok);
    assert!(after_ok);
}

#[test]
fn dynamic_fetch_supersedes_outstanding_handles() {
    let mut p = picker();
    let stale = p.injector();
    let fresh = p.begin_dynamic_fetch();
    assert!(p.fetch_running);
    assert_eq!(
        stale.push("old".to_string(), vec!["old".to_string()]),
        Err(InjectorShutdown)
    );
    assert_eq!(fresh.push("new".to_string(), vec!["new".to_string()]), Ok(()));
    p.fetch_done();
    assert!(!p.fetch_running);
}

#[test]
fn stamps_are_stable_across_clones() {
    let p = picker();
    let a = p.injector();
    let b = a.clone();
    assert_eq!(a.stamp(), b.stamp());
}
