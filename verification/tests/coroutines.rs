use muscm::coroutines::{Coroutine, CoroutineRegistry, CoroutineStatus};

#[test]
fn test_coroutine_resume_yield_finish() {
    let mut co: Coroutine<i32> = Coroutine::new(7, vec!["a".to_string()], vec![]);
    assert_eq!(co.id, 7);
    assert_eq!(co.status, CoroutineStatus::Suspended);
    assert!(co.is_resumable());
    assert_eq!(co.resume(vec![1, 2]), Ok(()));
    assert_eq!(co.status, CoroutineStatus::Running);
    assert_eq!(co.yield_values, vec![1, 2]);
    assert!(!co.is_resumable());
    assert_eq!(co.resume(vec![3]), Err("cannot resume running coroutine".to_string()));
    assert_eq!(co.yield_values, vec![1, 2]);
    co.yield_values(vec![4]);
    assert_eq!(co.status, CoroutineStatus::Suspended);
    assert_eq!(co.resume(vec![5]), Ok(()));
    assert_eq!(co.finish(vec![8, 9]), vec![8, 9]);
    assert_eq!(co.status, CoroutineStatus::Dead);
    assert_eq!(co.resume(vec![]), Err("cannot resume dead coroutine".to_string()));
    assert_eq!(co.status, CoroutineStatus::Dead);
    assert_eq!(co.status.to_string(), "dead");
}

#[test]
fn test_coroutine_registry_ids_and_active() {
    let mut reg: CoroutineRegistry<i32> = CoroutineRegistry::new();
    assert!(reg.get(1).is_none());
    let a = reg.create(vec![], vec![]);
    let b = reg.create(vec!["x".to_string()], vec![]);
    assert_eq!((a, b), (1, 2));
    assert_eq!(reg.get(2).unwrap().params, vec!["x".to_string()]);
    assert!(reg.get(0).is_none());
    assert!(reg.get(3).is_none());
    if let Some(co) = reg.get_mut(1) {
        co.resume(vec![10]).unwrap();
    }
    assert_eq!(reg.get(1).unwrap().status, CoroutineStatus::Running);
    assert!(reg.get_mut(9).is_none());
    assert_eq!(reg.get_active(), None);
    reg.set_active(b);
    assert_eq!(reg.get_active(), Some(2));
    reg.clear_active();
    assert_eq!(reg.get_active(), None);
    let empty: CoroutineRegistry<i32> = CoroutineRegistry::default();
    assert!(empty.get(1).is_none());
}
