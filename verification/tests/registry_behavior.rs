use wuhost::HandleRegistry;
use wuhost::WuClient;

#[test]
fn resolve_then_lookup_round_trips() {
    let mut reg = HandleRegistry::new();
    let tokens: Vec<u64> = vec![42, 7, 0xDEAD_BEEF, u64::MAX];
    let mut handles: Vec<WuClient> = Vec::new();
    for t in &tokens {
        handles.push(reg.resolve_or_create(*t));
    }
    for (t, h) in tokens.iter().zip(handles.iter()) {
        assert_eq!(reg.lookup(*h), Some(*t));
    }
}

#[test]
fn same_token_twice_yields_same_handle() {
    let mut reg = HandleRegistry::new();
    let first = reg.resolve_or_create(99);
    let second = reg.resolve_or_create(99);
    assert_eq!(first, second);
}

#[test]
fn distinct_tokens_yield_distinct_handles() {
    let mut reg = HandleRegistry::new();
    let a = reg.resolve_or_create(1);
    let b = reg.resolve_or_create(2);
    assert_ne!(a, b);
    assert_eq!(a.id(), 1);
    assert_eq!(b.id(), 2);
}

#[test]
fn remove_then_rejoin_yields_new_handle() {
    let mut reg = HandleRegistry::new();
    let h = reg.resolve_or_create(7);
    assert!(reg.remove(h));
    assert_eq!(reg.lookup(h), None);
    let h2 = reg.resolve_or_create(7);
    assert_ne!(h, h2);
    assert_eq!(reg.lookup(h), None);
    assert_eq!(reg.lookup(h2), Some(7));
}

#[test]
fn remove_unknown_handle_is_noop() {
    let mut reg = HandleRegistry::new();
    let live = reg.resolve_or_create(5);
    assert!(!reg.remove(WuClient(123)));
    assert_eq!(reg.lookup(live), Some(5));
}

#[test]
fn counter_tracks_allocations_only() {
    let mut reg = HandleRegistry::new();
    assert_eq!(reg.counter_value(), 0);
    let h = reg.resolve_or_create(1);
    reg.resolve_or_create(1);
    assert_eq!(reg.counter_value(), 1);
    reg.remove(h);
    assert_eq!(reg.counter_value(), 1);
    reg.resolve_or_create(1);
    assert_eq!(reg.counter_value(), 2);
}

#[test]
fn many_cycles_never_reissue_a_handle() {
    let mut reg = HandleRegistry::new();
    let mut last: u32 = 0;
    for _ in 0..10_000 {
        let h = reg.resolve_or_create(0x1000);
        assert!(h.id() > last, "handle {} issued twice or out of order", h.id());
        last = h.id();
        assert!(reg.remove(h));
    }
    assert_eq!(last, 10_000);
}
