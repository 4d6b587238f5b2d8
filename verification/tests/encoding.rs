use bounty_actor::codec::{
    decode_amount, decode_pair, encode_amount, encode_pair, id_address_bytes,
};
use bounty_actor::ops::{key_bytes, method_for, BountyKey, Method};
use bounty_actor::state::State;
use bounty_actor::store::ContentStore;
use bounty_actor::OpError;
use fvm_shared::address::Address;

#[test]
fn amount_encoding_is_sixteen_little_endian_bytes() {
    let e = encode_amount(0x0102);
    assert_eq!(e, vec![2, 1, 0, 0, 0, 0, 0, 0, 0, 0, 0, 0, 0, 0, 0, 0]);
    assert_eq!(decode_amount(&e), Some(0x0102));
}

#[test]
fn amount_encoding_round_trips_at_extremes() {
    for a in [0u128, 1, u128::MAX, u128::MAX - 1, 1 << 64] {
        assert_eq!(decode_amount(&encode_amount(a)), Some(a));
    }
}

#[test]
fn amount_decode_refuses_wrong_width() {
    assert_eq!(decode_amount(&vec![1, 2, 3]), None);
    assert_eq!(decode_amount(&vec![0; 17]), None);
}

#[test]
fn pair_encoding_is_length_prefixed() {
    let e = encode_pair(&vec![0xAA], &vec![0xBB, 0xCC]);
    assert_eq!(e, vec![1, 0, 0, 0, 0, 0, 0, 0, 0xAA, 0xBB, 0xCC]);
    let (a, b) = decode_pair(&e).unwrap();
    assert_eq!(a, vec![0xAA]);
    assert_eq!(b, vec![0xBB, 0xCC]);
}

#[test]
fn pair_decode_refuses_truncated_input() {
    assert_eq!(decode_pair(&vec![1, 2, 3]), None);
    let short = vec![9, 0, 0, 0, 0, 0, 0, 0, 1];
    assert_eq!(decode_pair(&short), None);
}

#[test]
fn key_bytes_distinguish_distinct_slots() {
    let k1 = key_bytes(&BountyKey { piece_cid: vec![1, 2], address: vec![3] });
    let k2 = key_bytes(&BountyKey { piece_cid: vec![1], address: vec![2, 3] });
    assert_ne!(k1, k2);
    let k3 = key_bytes(&BountyKey { piece_cid: vec![1, 2], address: vec![3] });
    assert_eq!(k1, k3);
}

#[test]
fn id_address_bytes_match_the_host_address_form() {
    for id in [0u64, 1, 42, 127, 128, 200, 16384, u64::MAX] {
        let ours = id_address_bytes(id);
        let theirs = Address::new_id(id).to_bytes();
        assert_eq!(ours, theirs);
    }
}

#[test]
fn state_record_round_trips_through_the_store() {
    let store = ContentStore::new();
    let record = State { trusted_address: vec![0, 42], bounties_map: vec![9, 8, 7] };
    let root = record.save(&store).unwrap();
    let loaded = State::load(&store, &root).unwrap();
    assert_eq!(loaded.trusted_address, record.trusted_address);
    assert_eq!(loaded.bounties_map, record.bounties_map);
}

#[test]
fn state_load_of_absent_root_fails() {
    let store = ContentStore::new();
    let r = State::load(&store, &vec![1, 85, 0, 1, 9]);
    assert!(matches!(r, Err(OpError::IllegalState)));
}

#[test]
fn method_selectors_dispatch_as_numbered() {
    assert_eq!(method_for(1), Ok(Method::Constructor));
    assert_eq!(method_for(2), Ok(Method::PostBounty));
    assert_eq!(method_for(3), Ok(Method::ListBounties));
    assert_eq!(method_for(4), Ok(Method::LookupBounty));
    assert_eq!(method_for(5), Ok(Method::AwardBounty));
    assert_eq!(method_for(0), Err(OpError::UnhandledOperation));
    assert_eq!(method_for(6), Err(OpError::UnhandledOperation));
}
