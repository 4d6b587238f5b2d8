use bounty_actor::ops::{
    constructor, lookup_bounty, post_bounty, PostBountyParams, INIT_ACTOR_ID,
};
use bounty_actor::store::ContentStore;
use bounty_actor::OpError;

fn piece(tag: u8) -> Vec<u8> {
    vec![1, 85, 0, 4, tag, tag, tag, tag]
}

fn addr(id: u8) -> Vec<u8> {
    vec![0, id]
}

#[test]
fn constructor_rejects_non_init_caller() {
    let store = ContentStore::new();
    let r = constructor(&store, 7, &addr(9));
    assert!(matches!(r, Err(OpError::Forbidden)));
}

#[test]
fn deposit_then_lookup_returns_amount() {
    let store = ContentStore::new();
    let root = constructor(&store, INIT_ACTOR_ID, &addr(9)).unwrap();
    let params = PostBountyParams { piece_cid: piece(1), address: addr(2) };
    let root = post_bounty(&store, &root, &params, 5).unwrap().unwrap();
    let bv = lookup_bounty(&store, &root, &params).unwrap();
    assert_eq!(bv.amount, 5);
}
