use benchmark::config::Reuse;
use benchmark::scratch::{slot_index, SlotRole, Strategy, UseScratch, SCRATCH_SIZE, SLOT_COUNT};

const ROLES: [SlotRole; 4] = [
    SlotRole::ClientRequest,
    SlotRole::ClientResponse,
    SlotRole::ServerRequest,
    SlotRole::ServerResponse,
];

#[test]
fn roles_have_distinct_slots_in_range() {
    let idx: Vec<usize> = ROLES.iter().map(|r| slot_index(*r)).collect();
    assert_eq!(idx, vec![0, 1, 2, 3]);
    assert!(idx.iter().all(|i| *i < SLOT_COUNT));
}

#[test]
fn a_new_pool_holds_every_buffer() {
    let pool = UseScratch::new();
    for r in ROLES {
        assert!(pool.is_available(r));
    }
}

#[test]
fn a_taken_buffer_is_out_until_restored() {
    let mut pool = UseScratch::new();
    let words = pool.take(SlotRole::ClientRequest).unwrap();
    assert_eq!(words.len(), SCRATCH_SIZE);
    assert!(!pool.is_available(SlotRole::ClientRequest));
    assert!(pool.is_available(SlotRole::ClientResponse));
    assert!(pool.take(SlotRole::ClientRequest).is_none());
    assert!(pool.restore(SlotRole::ClientRequest, words).is_none());
    assert!(pool.is_available(SlotRole::ClientRequest));
    let again = pool.take(SlotRole::ClientRequest).unwrap();
    assert_eq!(again.len(), SCRATCH_SIZE);
}

#[test]
fn restore_refuses_a_full_slot_or_a_wrong_size() {
    let mut pool = UseScratch::new();
    let words = pool.take(SlotRole::ServerResponse).unwrap();
    let back = pool.restore(SlotRole::ServerRequest, words).unwrap();
    assert_eq!(back.len(), SCRATCH_SIZE);
    assert!(pool.is_available(SlotRole::ServerRequest));
    assert!(!pool.is_available(SlotRole::ServerResponse));
    let small = capnp::Word::allocate_zeroed_vec(3);
    let refused = pool.restore(SlotRole::ServerResponse, small).unwrap();
    assert_eq!(refused.len(), 3);
    assert!(!pool.is_available(SlotRole::ServerResponse));
    assert!(pool.restore(SlotRole::ServerResponse, back).is_none());
    assert!(pool.is_available(SlotRole::ServerResponse));
}

#[test]
fn fresh_strategy_leases_empty_buffers_to_every_role() {
    let mut s = Strategy::new(Reuse::NoReuse);
    assert!(matches!(s, Strategy::Fresh(_)));
    let a = s.lease(SlotRole::ClientRequest).unwrap();
    let b = s.lease(SlotRole::ClientRequest).unwrap();
    assert!(a.is_empty() && b.is_empty());
    assert!(s.give_back(SlotRole::ClientRequest, a).is_none());
    assert!(s.give_back(SlotRole::ClientRequest, b).is_none());
}

#[test]
fn pooled_strategy_leases_each_slot_once() {
    let mut s = Strategy::new(Reuse::Reuse);
    assert!(matches!(s, Strategy::Pooled(_)));
    let a = s.lease(SlotRole::ClientResponse).unwrap();
    assert_eq!(a.len(), SCRATCH_SIZE);
    assert!(s.lease(SlotRole::ClientResponse).is_none());
    assert!(s.give_back(SlotRole::ClientResponse, a).is_none());
    let b = s.lease(SlotRole::ClientResponse).unwrap();
    assert_eq!(b.len(), SCRATCH_SIZE);
}

#[test]
fn both_strategies_run_iterations_alike() {
    for reuse in [Reuse::NoReuse, Reuse::Reuse] {
        let mut s = Strategy::new(reuse);
        for _ in 0..3 {
            let req = s.lease(SlotRole::ClientRequest).expect("request buffer");
            let res = s.lease(SlotRole::ClientResponse).expect("response buffer");
            assert!(s.give_back(SlotRole::ClientRequest, req).is_none());
            assert!(s.give_back(SlotRole::ClientResponse, res).is_none());
        }
    }
}
