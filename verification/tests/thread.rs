use steamos_manager::thread::JoinContext;

#[test]
fn test_join() {
    let (mut context, mut handle) = JoinContext::<u8>::spawn();
    assert_eq!(context.exit(), None);
    assert!(handle.poll(&mut context, true, 1));
}

#[test]
fn test_slow_join() {
    // The thread has exited, though nobody looked and it is not known to have finished.
    let (mut context, mut handle) = JoinContext::<u8>::spawn();
    assert_eq!(context.exit(), None);
    assert!(handle.poll(&mut context, false, 1));
    assert!(!handle.poll(&mut context, true, 2));
}

#[test]
fn test_slow_thread() {
    let (mut context, mut handle) = JoinContext::<u8>::spawn();
    assert!(!handle.poll(&mut context, false, 1));
    assert!(!handle.poll(&mut context, false, 2));
    assert_eq!(context.exit(), Some(2));
    assert!(handle.poll(&mut context, false, 3));
}
