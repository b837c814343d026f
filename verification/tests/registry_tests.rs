use ollama_relay::registry::TaskRegistry;
use ollama_relay::registry::force_stop;
use ollama_relay::registry::fresh_task_id;

#[test]
fn register_contains_remove() {
    let mut reg: TaskRegistry<u64> = TaskRegistry::new();
    let a = String::from("a");
    let b = String::from("b");
    assert!(!reg.contains(&a));
    reg.register(a.clone(), 1);
    reg.register(b.clone(), 2);
    assert!(reg.contains(&a));
    assert!(reg.contains(&b));
    assert_eq!(reg.remove(&a), Some(1));
    assert!(!reg.contains(&a));
    assert!(reg.contains(&b));
    assert_eq!(reg.remove(&a), None);
    assert_eq!(reg.remove(&b), Some(2));
    assert!(!reg.contains(&b));
}

#[test]
fn fresh_task_id_is_opaque_and_new() {
    let reg: TaskRegistry<u64> = TaskRegistry::new();
    let id1 = fresh_task_id(&reg).expect("empty registry cannot collide");
    let id2 = fresh_task_id(&reg).expect("empty registry cannot collide");
    assert_eq!(id1.len(), 36);
    assert_eq!(id2.len(), 36);
    assert_ne!(id1, id2);
    assert!(!reg.contains(&id1));
}

#[test]
fn fresh_id_not_among_registered() {
    let mut reg: TaskRegistry<u64> = TaskRegistry::new();
    let id1 = fresh_task_id(&reg).expect("fresh id");
    reg.register(id1.clone(), 1);
    let id2 = fresh_task_id(&reg).expect("fresh id");
    assert!(!reg.contains(&id2));
    assert_ne!(id1, id2);
}

#[test]
fn cancel_running_task_succeeds_exactly_once() {
    let rt = tokio::runtime::Builder::new_multi_thread().build().expect("runtime");
    let mut reg: TaskRegistry<tokio::task::JoinHandle<()>> = TaskRegistry::new();
    let handle = rt.spawn(std::future::pending::<()>());
    let id = String::from("running-task");
    reg.register(id.clone(), handle);

    assert!(force_stop(&mut reg, &id));
    assert!(!reg.contains(&id));
    // a second cancellation of the same identifier finds nothing
    assert!(!force_stop(&mut reg, &id));
}

#[test]
fn cancel_after_natural_completion_returns_false() {
    let rt = tokio::runtime::Builder::new_multi_thread().build().expect("runtime");
    let mut reg: TaskRegistry<tokio::task::JoinHandle<()>> = TaskRegistry::new();
    let handle = rt.spawn(async {});
    let id = String::from("finished-task");
    reg.register(id.clone(), handle);
    // natural completion: the task removes its own entry
    let h = reg.remove(&id);
    assert!(h.is_some());
    // cancellation arriving afterwards is a safe no-op
    assert!(!force_stop(&mut reg, &id));
}

#[test]
fn cancel_unknown_id_returns_false() {
    let mut reg: TaskRegistry<tokio::task::JoinHandle<()>> = TaskRegistry::new();
    assert!(!force_stop(&mut reg, "no-such-task"));
}
