use bounty_actor::codec::id_address_bytes;
use bounty_actor::ops::{
    award_bounty, constructor, list_bounties, lookup_bounty, post_bounty, AwardBountyParams,
    PostBountyParams, INIT_ACTOR_ID,
};
use bounty_actor::store::ContentStore;
use bounty_actor::OpError;

const TRUSTED_ID: u64 = 42;

fn piece(tag: u8) -> Vec<u8> {
    vec![1, 85, 0, 4, tag, tag, tag, tag]
}

fn addr(id: u8) -> Vec<u8> {
    vec![0, id]
}

fn post_params(p: u8, a: u8) -> PostBountyParams {
    PostBountyParams { piece_cid: piece(p), address: addr(a) }
}

fn award_params(p: u8, a: u8, payout: u8) -> AwardBountyParams {
    AwardBountyParams { piece_cid: piece(p), address: addr(a), payout_address: addr(payout) }
}

fn init(store: &ContentStore) -> Vec<u8> {
    constructor(store, INIT_ACTOR_ID, &id_address_bytes(TRUSTED_ID)).unwrap()
}

#[test]
fn root_determinism_insert_order() {
    let s1 = ContentStore::new();
    let mut r1 = init(&s1);
    r1 = post_bounty(&s1, &r1, &post_params(1, 2), 5).unwrap().unwrap();
    r1 = post_bounty(&s1, &r1, &post_params(3, 4), 7).unwrap().unwrap();

    let s2 = ContentStore::new();
    let mut r2 = init(&s2);
    r2 = post_bounty(&s2, &r2, &post_params(3, 4), 7).unwrap().unwrap();
    r2 = post_bounty(&s2, &r2, &post_params(1, 2), 5).unwrap().unwrap();

    assert_eq!(r1, r2);
}

#[test]
fn root_determinism_delete_cancels() {
    let s1 = ContentStore::new();
    let mut r1 = init(&s1);
    r1 = post_bounty(&s1, &r1, &post_params(1, 2), 5).unwrap().unwrap();
    r1 = post_bounty(&s1, &r1, &post_params(3, 4), 7).unwrap().unwrap();

    let s2 = ContentStore::new();
    let mut r2 = init(&s2);
    r2 = post_bounty(&s2, &r2, &post_params(1, 2), 5).unwrap().unwrap();
    r2 = post_bounty(&s2, &r2, &post_params(3, 4), 7).unwrap().unwrap();
    r2 = post_bounty(&s2, &r2, &post_params(9, 9), 11).unwrap().unwrap();
    let outcome = award_bounty(&s2, &r2, TRUSTED_ID, &award_params(9, 9, 8)).unwrap();
    let t = outcome.transfer.unwrap();
    assert_eq!(t.amount, 11);
    assert_eq!(t.to, addr(8));
    r2 = outcome.new_root.unwrap();

    assert_eq!(r1, r2);
}

#[test]
fn additive_deposits() {
    let store = ContentStore::new();
    let mut root = init(&store);
    root = post_bounty(&store, &root, &post_params(1, 2), 5).unwrap().unwrap();
    root = post_bounty(&store, &root, &post_params(1, 2), 7).unwrap().unwrap();
    let bv = lookup_bounty(&store, &root, &post_params(1, 2)).unwrap();
    assert_eq!(bv.amount, 12);
}

#[test]
fn zero_deposit_on_empty_slot_is_noop() {
    let store = ContentStore::new();
    let root = init(&store);
    let r = post_bounty(&store, &root, &post_params(1, 2), 0).unwrap();
    assert!(r.is_none());
}

#[test]
fn zero_deposit_on_funded_slot_keeps_root() {
    let store = ContentStore::new();
    let mut root = init(&store);
    root = post_bounty(&store, &root, &post_params(1, 2), 5).unwrap().unwrap();
    let again = post_bounty(&store, &root, &post_params(1, 2), 0).unwrap().unwrap();
    assert_eq!(root, again);
}

#[test]
fn zero_balance_never_persists() {
    let store = ContentStore::new();
    let mut root = init(&store);
    root = post_bounty(&store, &root, &post_params(1, 2), 3).unwrap().unwrap();
    let outcome = award_bounty(&store, &root, TRUSTED_ID, &award_params(1, 2, 8)).unwrap();
    assert_eq!(outcome.transfer.as_ref().unwrap().amount, 3);
    root = outcome.new_root.unwrap();

    let bv = lookup_bounty(&store, &root, &post_params(1, 2)).unwrap();
    assert_eq!(bv.amount, 0);
    let listed = list_bounties(&store, &root).unwrap();
    assert!(listed.is_empty());
}

#[test]
fn award_requires_trusted_caller() {
    let store = ContentStore::new();
    let mut root = init(&store);
    root = post_bounty(&store, &root, &post_params(1, 2), 3).unwrap().unwrap();
    let r = award_bounty(&store, &root, TRUSTED_ID + 1, &award_params(1, 2, 8));
    assert!(matches!(r, Err(OpError::Forbidden)));
    let bv = lookup_bounty(&store, &root, &post_params(1, 2)).unwrap();
    assert_eq!(bv.amount, 3);
}

#[test]
fn no_double_payout() {
    let store = ContentStore::new();
    let mut root = init(&store);
    root = post_bounty(&store, &root, &post_params(1, 2), 9).unwrap().unwrap();

    let first = award_bounty(&store, &root, TRUSTED_ID, &award_params(1, 2, 8)).unwrap();
    assert_eq!(first.transfer.as_ref().unwrap().amount, 9);
    root = first.new_root.unwrap();

    let second = award_bounty(&store, &root, TRUSTED_ID, &award_params(1, 2, 8)).unwrap();
    assert!(second.transfer.is_none());
    assert!(second.new_root.is_none());
}

#[test]
fn award_on_never_funded_slot_is_noop() {
    let store = ContentStore::new();
    let root = init(&store);
    let outcome = award_bounty(&store, &root, TRUSTED_ID, &award_params(6, 6, 8)).unwrap();
    assert!(outcome.transfer.is_none());
    assert!(outcome.new_root.is_none());
}

#[test]
fn list_is_complete_and_exact() {
    let store = ContentStore::new();
    let mut root = init(&store);
    root = post_bounty(&store, &root, &post_params(1, 2), 5).unwrap().unwrap();
    root = post_bounty(&store, &root, &post_params(3, 4), 7).unwrap().unwrap();
    root = post_bounty(&store, &root, &post_params(1, 2), 2).unwrap().unwrap();

    let listed = list_bounties(&store, &root).unwrap();
    assert_eq!(listed.len(), 2);
    let mut found = [false, false];
    for pb in &listed {
        if pb.piece_cid == piece(1) && pb.address == addr(2) {
            assert_eq!(pb.amount, 7);
            found[0] = true;
        } else if pb.piece_cid == piece(3) && pb.address == addr(4) {
            assert_eq!(pb.amount, 7);
            found[1] = true;
        } else {
            panic!("unexpected listing entry");
        }
    }
    assert!(found[0] && found[1]);
}

#[test]
fn list_order_is_deterministic_for_same_content() {
    let s1 = ContentStore::new();
    let mut r1 = init(&s1);
    r1 = post_bounty(&s1, &r1, &post_params(1, 2), 5).unwrap().unwrap();
    r1 = post_bounty(&s1, &r1, &post_params(3, 4), 7).unwrap().unwrap();

    let s2 = ContentStore::new();
    let mut r2 = init(&s2);
    r2 = post_bounty(&s2, &r2, &post_params(3, 4), 7).unwrap().unwrap();
    r2 = post_bounty(&s2, &r2, &post_params(1, 2), 5).unwrap().unwrap();

    let l1 = list_bounties(&s1, &r1).unwrap();
    let l2 = list_bounties(&s2, &r2).unwrap();
    assert_eq!(l1.len(), l2.len());
    for (a, b) in l1.iter().zip(l2.iter()) {
        assert_eq!(a.piece_cid, b.piece_cid);
        assert_eq!(a.address, b.address);
        assert_eq!(a.amount, b.amount);
    }
}

#[test]
fn deposit_overflowing_the_balance_width_fails() {
    let store = ContentStore::new();
    let mut root = init(&store);
    root = post_bounty(&store, &root, &post_params(1, 2), u128::MAX).unwrap().unwrap();
    let r = post_bounty(&store, &root, &post_params(1, 2), 1);
    assert!(matches!(r, Err(OpError::IllegalState)));
    let bv = lookup_bounty(&store, &root, &post_params(1, 2)).unwrap();
    assert_eq!(bv.amount, u128::MAX);
}

#[test]
fn lookup_with_bad_root_is_illegal_state() {
    let store = ContentStore::new();
    let bad_root = vec![1, 2, 3];
    let r = lookup_bounty(&store, &bad_root, &post_params(1, 2));
    assert!(matches!(r, Err(OpError::IllegalState)));
}
