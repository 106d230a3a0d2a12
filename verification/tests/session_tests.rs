use ws_rpc::errors::AcceptError;
use ws_rpc::session::AppContext;

#[test]
fn accept_installs_peer_with_empty_table() {
    let mut ctx = AppContext::new();
    assert!(!ctx.client_exists());
    assert!(ctx.accept_peer(Some("127.0.0.1:5000".to_string())).is_ok());
    assert!(ctx.client_exists());
    assert_eq!(ctx.pending_count(), 0);
}

#[test]
fn accept_requires_origin() {
    let mut ctx = AppContext::new();
    match ctx.accept_peer(None) {
        Err(AcceptError::OriginRequired(_)) => {}
        other => panic!("unexpected accept outcome: {:?}", other),
    }
    assert!(!ctx.client_exists());
}

#[test]
fn second_accept_rejected_and_table_untouched() {
    let mut ctx = AppContext::new();
    ctx.accept_peer(Some("127.0.0.1:5000".to_string())).unwrap();
    ctx.register_pending("id-1".to_string()).unwrap();
    ctx.register_pending("id-2".to_string()).unwrap();
    let before = ctx.pending_count();
    match ctx.accept_peer(Some("10.0.0.9:6000".to_string())) {
        Err(AcceptError::AlreadyInUse(_)) => {}
        other => panic!("unexpected accept outcome: {:?}", other),
    }
    assert_eq!(ctx.pending_count(), before);
    assert!(ctx.has_pending(&"id-1".to_string()));
    assert!(ctx.has_pending(&"id-2".to_string()));
}

#[test]
fn register_without_peer_fails_and_registers_nothing() {
    let mut ctx = AppContext::new();
    let before = ctx.pending_count();
    assert!(ctx.register_pending("id-1".to_string()).is_err());
    assert_eq!(ctx.pending_count(), before);
    assert!(!ctx.has_pending(&"id-1".to_string()));
}

#[test]
fn register_and_remove_pending() {
    let mut ctx = AppContext::new();
    ctx.accept_peer(Some("127.0.0.1:5000".to_string())).unwrap();
    ctx.register_pending("a".to_string()).unwrap();
    ctx.register_pending("b".to_string()).unwrap();
    assert_eq!(ctx.pending_count(), 2);
    assert!(ctx.remove_pending(&"a".to_string()));
    assert_eq!(ctx.pending_count(), 1);
    assert!(!ctx.has_pending(&"a".to_string()));
    assert!(ctx.has_pending(&"b".to_string()));
    assert!(!ctx.remove_pending(&"a".to_string()));
    assert_eq!(ctx.pending_count(), 1);
}

#[test]
fn register_same_id_twice_keeps_one_slot() {
    let mut ctx = AppContext::new();
    ctx.accept_peer(Some("127.0.0.1:5000".to_string())).unwrap();
    ctx.register_pending("a".to_string()).unwrap();
    ctx.register_pending("a".to_string()).unwrap();
    assert_eq!(ctx.pending_count(), 1);
}

#[test]
fn detach_hands_back_every_pending_waiter() {
    let mut ctx = AppContext::new();
    ctx.accept_peer(Some("127.0.0.1:5000".to_string())).unwrap();
    ctx.register_pending("w1".to_string()).unwrap();
    ctx.register_pending("w2".to_string()).unwrap();
    ctx.register_pending("w3".to_string()).unwrap();
    let waiters = ctx.detach_peer();
    assert_eq!(waiters.len(), 3);
    assert!(waiters.contains(&"w1".to_string()));
    assert!(waiters.contains(&"w2".to_string()));
    assert!(waiters.contains(&"w3".to_string()));
    assert!(!ctx.client_exists());
    assert_eq!(ctx.pending_count(), 0);
}

#[test]
fn detach_without_peer_hands_back_nothing() {
    let mut ctx = AppContext::new();
    let waiters = ctx.detach_peer();
    assert!(waiters.is_empty());
}

#[test]
fn shutdown_fires_once_then_is_a_no_op() {
    let mut ctx = AppContext::new();
    ctx.arm_shutdown();
    assert!(ctx.shutdown());
    assert!(!ctx.shutdown());
    assert!(!ctx.shutdown());
}

#[test]
fn shutdown_unarmed_fires_nothing() {
    let mut ctx = AppContext::new();
    assert!(!ctx.shutdown());
}
