use vstd::prelude::*;

use crate::codec::{
    amount_dec_spec, amount_enc_spec, copy_range, decode_amount, decode_pair, encode_amount,
    encode_pair, id_addr_spec, id_address_bytes, lemma_lp_dec_enc, lp_enc,
};
use crate::state::{saved_record, State};
use crate::store::{
    contents_at, empty_contents, index_contents, index_root_of, BountyIndex, ContentStore,
};
use crate::OpError;

verus! {

/// The actor id of the bootstrap authority allowed to run `constructor`.
pub const INIT_ACTOR_ID: u64 = 1;

/// Composite identity of one bounty slot: a piece's content identifier and a
/// depositor's address, both as canonical bytes.
pub struct BountyKey {
    pub piece_cid: Vec<u8>,
    pub address: Vec<u8>,
}

/// The balance a bounty slot holds.
pub struct BountyValue {
    pub amount: u128,
}

/// Parameters of `post_bounty` and `lookup_bounty`.
pub struct PostBountyParams {
    pub piece_cid: Vec<u8>,
    pub address: Vec<u8>,
}

/// One entry of `list_bounties`' output.
pub struct PostedBounty {
    pub piece_cid: Vec<u8>,
    pub address: Vec<u8>,
    pub amount: u128,
}

/// Parameters of `award_bounty`.
pub struct AwardBountyParams {
    pub piece_cid: Vec<u8>,
    pub address: Vec<u8>,
    pub payout_address: Vec<u8>,
}

/// A value transfer the host is asked to perform.
pub struct TransferRequest {
    pub to: Vec<u8>,
    pub amount: u128,
}

/// What a successful `award_bounty` asks of its caller: perform the transfer,
/// if any, and only then publish the new root, if any.
pub struct AwardOutcome {
    pub transfer: Option<TransferRequest>,
    pub new_root: Option<Vec<u8>>,
}

/// The canonical index key of a bounty slot.
pub open spec fn key_bytes_spec(piece: Seq<u8>, addr: Seq<u8>) -> Seq<u8> {
    lp_enc(piece, addr)
}

/// Serializes a bounty key deterministically; two keys name the same slot
/// exactly when these bytes are identical.
pub fn key_bytes(key: &BountyKey) -> (r: Vec<u8>)
    ensures
        r@ == key_bytes_spec(key.piece_cid@, key.address@),
{
    encode_pair(&key.piece_cid, &key.address)
}

/// The record a published root commits to, if its block decodes: the trusted
/// authority's address bytes and the index root.
pub open spec fn record_at(root: Seq<u8>) -> Option<(Seq<u8>, Seq<u8>)> {
    crate::codec::lp_dec(crate::store::block_at(root))
}

/// The balance a content set holds for a key: an absent entry is a zero
/// balance; a present entry must decode.
pub open spec fn stored_amount(m: Map<Seq<u8>, Seq<u8>>, k: Seq<u8>) -> Option<u128> {
    if m.contains_key(k) {
        amount_dec_spec(m[k])
    } else {
        Some(0u128)
    }
}

/// Every entry of a well-formed index decodes to a positive balance: a zero
/// balance is never persisted, it is the absence of the entry.
pub open spec fn index_wf(m: Map<Seq<u8>, Seq<u8>>) -> bool {
    forall|k: Seq<u8>|
        #[trigger] m.contains_key(k) ==> (amount_dec_spec(m[k]) matches Some(a) && a > 0)
}

/// The five externally invokable operations, by selector.
#[derive(Clone, Copy, Debug, PartialEq, Eq, Structural)]
pub enum Method {
    Constructor,
    PostBounty,
    ListBounties,
    LookupBounty,
    AwardBounty,
}

/// Maps a numeric method selector to its operation; any other selector is
/// the unhandled-operation abort.
pub fn method_for(num: u64) -> (r: Result<Method, OpError>)
    ensures
        num == 1 ==> (r matches Ok(m) && m == Method::Constructor),
        num == 2 ==> (r matches Ok(m) && m == Method::PostBounty),
        num == 3 ==> (r matches Ok(m) && m == Method::ListBounties),
        num == 4 ==> (r matches Ok(m) && m == Method::LookupBounty),
        num == 5 ==> (r matches Ok(m) && m == Method::AwardBounty),
        !(1 <= num <= 5) <==> (r matches Err(e) && e == OpError::UnhandledOperation),
{
    if num == 1 {
        Ok(Method::Constructor)
    } else if num == 2 {
        Ok(Method::PostBounty)
    } else if num == 3 {
        Ok(Method::ListBounties)
    } else if num == 4 {
        Ok(Method::LookupBounty)
    } else if num == 5 {
        Ok(Method::AwardBounty)
    } else {
        Err(OpError::UnhandledOperation)
    }
}

/// Creates the empty persistent index and the initial state record naming the
/// supplied trusted authority, and returns the record's identifier for the
/// caller to publish. Only the bootstrap authority may run it.
pub fn constructor(store: &ContentStore, caller: u64, trusted_address: &Vec<u8>) -> (r: Result<
    Vec<u8>,
    OpError,
>)
    ensures
        (caller != INIT_ACTOR_ID) <==> (r matches Err(e) && e == OpError::Forbidden),
        r matches Ok(root) ==> saved_record(
            root@,
            trusted_address@,
            index_root_of(empty_contents()),
        ) && contents_at(index_root_of(empty_contents())) == empty_contents(),
{
    if caller != INIT_ACTOR_ID {
        return Err(OpError::Forbidden);
    }
    let mut bounties = BountyIndex::empty(store);
    let index_root = match bounties.flush() {
        Ok(c) => c,
        Err(e) => return Err(e),
    };
    let trusted = copy_range(trusted_address, 0, trusted_address.len());
    proof {
        assert(trusted_address@.subrange(0, trusted_address@.len() as int) =~= trusted_address@);
    }
    let state = State { trusted_address: trusted, bounties_map: index_root };
    state.save(store)
}

/// Adds the received value to the key's balance (zero if absent), persists
/// the new balance if it is positive, and returns the new record identifier
/// to publish; a deposit that leaves a zero balance touches nothing.
pub fn post_bounty(
    store: &ContentStore,
    root: &Vec<u8>,
    params: &PostBountyParams,
    value_received: u128,
) -> (r: Result<Option<Vec<u8>>, OpError>)
    ensures
        r matches Ok(o) ==> ({
            let rec = record_at(root@);
            &&& rec is Some
            &&& ({
                let m = contents_at(rec.unwrap().1);
                let k = key_bytes_spec(params.piece_cid@, params.address@);
                &&& stored_amount(m, k) is Some
                &&& stored_amount(m, k).unwrap() + value_received <= u128::MAX
                &&& ({
                    let nb = (stored_amount(m, k).unwrap() + value_received) as u128;
                    if nb == 0 {
                        o is None
                    } else {
                        let m2 = m.insert(k, amount_enc_spec(nb));
                        o matches Some(nr) && saved_record(nr@, rec.unwrap().0, index_root_of(m2))
                            && contents_at(index_root_of(m2)) == m2
                    }
                })
            })
        }),
        r matches Err(e) ==> e != OpError::Forbidden,
{
    let state = match State::load(store, root) {
        Ok(s) => s,
        Err(e) => return Err(e),
    };
    let mut bounties = match BountyIndex::load(store, &state.bounties_map) {
        Ok(b) => b,
        Err(e) => return Err(e),
    };
    let kb = encode_pair(&params.piece_cid, &params.address);
    let balance: u128 = match bounties.get(&kb) {
        Ok(Some(v)) => match decode_amount(&v) {
            Some(a) => a,
            None => return Err(OpError::Serialization),
        },
        Ok(None) => 0,
        Err(e) => return Err(e),
    };
    if value_received > u128::MAX - balance {
        return Err(OpError::IllegalState);
    }
    let amount = balance + value_received;
    if amount > 0 {
        let vb = encode_amount(amount);
        match bounties.set(&kb, &vb) {
            Ok(()) => (),
            Err(e) => return Err(e),
        };
        let index_root = match bounties.flush() {
            Ok(c) => c,
            Err(e) => return Err(e),
        };
        let new_state = State { trusted_address: state.trusted_address, bounties_map: index_root };
        match new_state.save(store) {
            Ok(c) => Ok(Some(c)),
            Err(e) => Err(e),
        }
    } else {
        Ok(None)
    }
}

/// Returns the key's current balance, zero if the slot is unfunded. Never
/// mutates anything.
pub fn lookup_bounty(store: &ContentStore, root: &Vec<u8>, params: &PostBountyParams) -> (r: Result<
    BountyValue,
    OpError,
>)
    ensures
        r matches Ok(bv) ==> ({
            let rec = record_at(root@);
            &&& rec is Some
            &&& stored_amount(
                contents_at(rec.unwrap().1),
                key_bytes_spec(params.piece_cid@, params.address@),
            ) == Some(bv.amount)
        }),
        r matches Err(e) ==> e != OpError::Forbidden,
{
    let state = match State::load(store, root) {
        Ok(s) => s,
        Err(e) => return Err(e),
    };
    let bounties = match BountyIndex::load(store, &state.bounties_map) {
        Ok(b) => b,
        Err(e) => return Err(e),
    };
    let kb = encode_pair(&params.piece_cid, &params.address);
    match bounties.get(&kb) {
        Ok(Some(v)) => match decode_amount(&v) {
            Some(a) => Ok(BountyValue { amount: a }),
            None => Err(OpError::Serialization),
        },
        Ok(None) => Ok(BountyValue { amount: 0 }),
        Err(e) => Err(e),
    }
}

/// One listed entry corresponds to one funded slot of the content set.
pub open spec fn bounty_listed(m: Map<Seq<u8>, Seq<u8>>, pb: PostedBounty) -> bool {
    let k = key_bytes_spec(pb.piece_cid@, pb.address@);
    m.contains_key(k) && amount_dec_spec(m[k]) == Some(pb.amount)
}

/// A listing is the whole content set and nothing else: every listed entry is
/// a held slot, every held slot is listed, no slot is listed twice.
pub open spec fn listing_of(m: Map<Seq<u8>, Seq<u8>>, v: Seq<PostedBounty>) -> bool {
    &&& forall|j: int| 0 <= j < v.len() ==> bounty_listed(m, #[trigger] v[j])
    &&& forall|k: Seq<u8>|
        #[trigger] m.contains_key(k) ==> exists|j: int|
            0 <= j < v.len() && key_bytes_spec(v[j].piece_cid@, v[j].address@) == k
    &&& forall|j1: int, j2: int|
        0 <= j1 < j2 < v.len() ==> key_bytes_spec(v[j1].piece_cid@, v[j1].address@)
            != key_bytes_spec(v[j2].piece_cid@, v[j2].address@)
    &&& v.len() == m.dom().len()
}

/// Read-only traversal of every funded slot, each decoded back to its key
/// fields and accumulated amount. The order is the trie's own deterministic
/// hash-bucket order, not operation history.
pub fn list_bounties(store: &ContentStore, root: &Vec<u8>) -> (r: Result<Vec<PostedBounty>, OpError>)
    ensures
        r matches Ok(v) ==> record_at(root@) is Some && listing_of(
            contents_at(record_at(root@).unwrap().1),
            v@,
        ),
        r matches Err(e) ==> e != OpError::Forbidden,
{
    let state = match State::load(store, root) {
        Ok(s) => s,
        Err(e) => return Err(e),
    };
    let bounties = match BountyIndex::load(store, &state.bounties_map) {
        Ok(b) => b,
        Err(e) => return Err(e),
    };
    let entries = match bounties.entries() {
        Ok(es) => es,
        Err(e) => return Err(e),
    };
    let ghost m = index_contents(bounties);
    let mut out: Vec<PostedBounty> = Vec::new();
    let mut i: usize = 0;
    #[verifier::loop_isolation(false)]
    while i < entries.len()
        invariant
            i <= entries@.len(),
            out@.len() == i,
            forall|j: int|
                0 <= j < i ==> bounty_listed(m, #[trigger] out@[j]) && key_bytes_spec(
                    out@[j].piece_cid@,
                    out@[j].address@,
                ) == entries@[j].0@,
        decreases entries@.len() - i,
    {
        let dec = match decode_pair(&entries[i].0) {
            Some(p) => p,
            None => return Err(OpError::Serialization),
        };
        let amount = match decode_amount(&entries[i].1) {
            Some(a) => a,
            None => return Err(OpError::Serialization),
        };
        proof {
            lemma_lp_dec_enc(entries@[i as int].0@);
            assert(m.contains_key(entries@[i as int].0@));
        }
        out.push(PostedBounty { piece_cid: dec.0, address: dec.1, amount });
        i = i + 1;
    }
    proof {
        assert forall|k: Seq<u8>| #[trigger] m.contains_key(k) implies exists|j: int|
            0 <= j < out@.len() && key_bytes_spec(out@[j].piece_cid@, out@[j].address@) == k by {
            let j = choose|j: int| 0 <= j < entries@.len() && entries@[j].0@ == k;
            assert(key_bytes_spec(out@[j].piece_cid@, out@[j].address@) == k);
        }
        let rec = record_at(root@);
        assert(rec is Some && rec.unwrap() == (state.trusted_address@, state.bounties_map@));
        assert(contents_at(rec.unwrap().1) == m);
        assert(listing_of(m, out@));
    }
    Ok(out)
}

/// The award decision against an already-loaded state record: only the
/// recorded trusted authority may award; a funded slot is paid out in full
/// and its entry removed, an unfunded slot is a no-op.
pub fn award_with_state(
    store: &ContentStore,
    state: &State,
    caller: u64,
    params: &AwardBountyParams,
) -> (r: Result<AwardOutcome, OpError>)
    ensures
        (id_addr_spec(caller) != state.trusted_address@) <==> (r matches Err(e) && e
            == OpError::Forbidden),
        r matches Ok(o) ==> ({
            let m = contents_at(state.bounties_map@);
            let k = key_bytes_spec(params.piece_cid@, params.address@);
            &&& stored_amount(m, k) is Some
            &&& ({
                let bal = stored_amount(m, k).unwrap();
                if bal == 0 {
                    o.transfer is None && o.new_root is None
                } else {
                    &&& o.transfer matches Some(t) && t.to@ == params.payout_address@ && t.amount
                        == bal
                    &&& o.new_root matches Some(nr) && saved_record(
                        nr@,
                        state.trusted_address@,
                        index_root_of(m.remove(k)),
                    )
                    &&& contents_at(index_root_of(m.remove(k))) == m.remove(k)
                }
            })
        }),
{
    let caller_bytes = id_address_bytes(caller);
    if !bytes_eq(&caller_bytes, &state.trusted_address) {
        return Err(OpError::Forbidden);
    }
    let mut bounties = match BountyIndex::load(store, &state.bounties_map) {
        Ok(b) => b,
        Err(e) => return Err(e),
    };
    let kb = encode_pair(&params.piece_cid, &params.address);
    let balance: u128 = match bounties.get(&kb) {
        Ok(Some(v)) => match decode_amount(&v) {
            Some(a) => a,
            None => return Err(OpError::Serialization),
        },
        Ok(None) => 0,
        Err(e) => return Err(e),
    };
    if balance == 0 {
        return Ok(AwardOutcome { transfer: None, new_root: None });
    }
    match bounties.delete(&kb) {
        Ok(()) => (),
        Err(e) => return Err(e),
    };
    let index_root = match bounties.flush() {
        Ok(c) => c,
        Err(e) => return Err(e),
    };
    let trusted = copy_range(&state.trusted_address, 0, state.trusted_address.len());
    proof {
        assert(state.trusted_address@.subrange(0, state.trusted_address@.len() as int)
            =~= state.trusted_address@);
    }
    let new_state = State { trusted_address: trusted, bounties_map: index_root };
    let new_root = match new_state.save(store) {
        Ok(c) => c,
        Err(e) => return Err(e),
    };
    Ok(
        AwardOutcome {
            transfer: Some(
                TransferRequest {
                    to: copy_range(&params.payout_address, 0, params.payout_address.len()),
                    amount: balance,
                },
            ),
            new_root: Some(new_root),
        },
    )
}

/// Releases a funded slot's full balance to the payout address, if the caller
/// is the recorded trusted authority. The returned outcome carries the
/// transfer to perform and the new record identifier to publish afterwards;
/// an unfunded slot yields neither.
pub fn award_bounty(
    store: &ContentStore,
    root: &Vec<u8>,
    caller: u64,
    params: &AwardBountyParams,
) -> (r: Result<AwardOutcome, OpError>)
    ensures
        r matches Ok(o) ==> ({
            let rec = record_at(root@);
            &&& rec is Some
            &&& id_addr_spec(caller) == rec.unwrap().0
            &&& ({
                let m = contents_at(rec.unwrap().1);
                let k = key_bytes_spec(params.piece_cid@, params.address@);
                &&& stored_amount(m, k) is Some
                &&& ({
                    let bal = stored_amount(m, k).unwrap();
                    if bal == 0 {
                        o.transfer is None && o.new_root is None
                    } else {
                        &&& o.transfer matches Some(t) && t.to@ == params.payout_address@
                            && t.amount == bal
                        &&& o.new_root matches Some(nr) && saved_record(
                            nr@,
                            rec.unwrap().0,
                            index_root_of(m.remove(k)),
                        )
                        &&& contents_at(index_root_of(m.remove(k))) == m.remove(k)
                    }
                })
            })
        }),
        (r matches Err(e) && e == OpError::Forbidden) ==> ({
            let rec = record_at(root@);
            rec is Some && id_addr_spec(caller) != rec.unwrap().0
        }),
{
    let state = match State::load(store, root) {
        Ok(s) => s,
        Err(e) => return Err(e),
    };
    award_with_state(store, &state, caller, params)
}

/// Byte-for-byte equality of two byte strings.
pub fn bytes_eq(a: &Vec<u8>, b: &Vec<u8>) -> (r: bool)
    ensures
        r <==> a@ == b@,
{
    if a.len() != b.len() {
        proof {
            assert(a@.len() != b@.len());
        }
        return false;
    }
    let mut i: usize = 0;
    #[verifier::loop_isolation(false)]
    while i < a.len()
        invariant
            i <= a@.len(),
            forall|j: int| 0 <= j < i ==> a@[j] == b@[j],
        decreases a@.len() - i,
    {
        if a[i] != b[i] {
            return false;
        }
        i = i + 1;
    }
    proof {
        assert(a@ =~= b@);
    }
    true
}

} // verus!
