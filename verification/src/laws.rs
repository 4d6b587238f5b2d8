use vstd::prelude::*;

use crate::codec::{
    amount_enc_spec, lemma_amount_round_trip, lemma_lp_injective, lemma_lp_round_trip, pow256,
};
use crate::ops::{index_wf, key_bytes_spec, record_at, stored_amount};
use crate::state::saved_record;
use crate::store::{empty_contents, index_root_of};

verus! {

// The ledger's general laws, each proved against the contracts of the
// operations and of the persistent index. These are the statements a reader
// should hold the crate to; the scenario tests exercise the same claims on
// concrete values through the public operations.

/// What a published root commits to. Every mutating operation returns a root
/// for which `saved_record` holds — the record block is already stored under
/// its identifier — and such a root decodes to exactly the trusted authority
/// and the index root that were just flushed: the record any later load
/// observes is the one saved last.
pub proof fn published_record_decodes(c: Seq<u8>, trusted: Seq<u8>, iroot: Seq<u8>)
    requires
        trusted.len() < pow256(8),
        saved_record(c, trusted, iroot),
    ensures
        record_at(c) == Some((trusted, iroot)),
{
    lemma_lp_round_trip(trusted, iroot);
}

/// Two bounty keys name the same slot exactly when their canonical byte
/// encodings are identical; every in-memory key satisfies the length bound.
pub proof fn key_identity(p1: Seq<u8>, a1: Seq<u8>, p2: Seq<u8>, a2: Seq<u8>)
    requires
        p1.len() < pow256(8),
        p2.len() < pow256(8),
    ensures
        (key_bytes_spec(p1, a1) == key_bytes_spec(p2, a2)) <==> (p1 == p2 && a1 == a2),
{
    if key_bytes_spec(p1, a1) == key_bytes_spec(p2, a2) {
        lemma_lp_injective(p1, a1, p2, a2);
    }
}

/// Root determinism: the root identifier is a pure function of the (key,
/// value) set, so building the index by inserting two distinct entries in
/// either order flushes to the same root.
pub proof fn root_order_independent(ka: Seq<u8>, va: Seq<u8>, kb: Seq<u8>, vb: Seq<u8>)
    requires
        ka != kb,
    ensures
        index_root_of(empty_contents().insert(ka, va).insert(kb, vb)) == index_root_of(
            empty_contents().insert(kb, vb).insert(ka, va),
        ),
{
    assert(empty_contents().insert(ka, va).insert(kb, vb) =~= empty_contents().insert(
        kb,
        vb,
    ).insert(ka, va));
}

/// Root determinism under deletion: inserting a third entry and then deleting
/// it flushes to the same root as never having inserted it, independent of
/// history.
pub proof fn root_delete_cancels(
    ka: Seq<u8>,
    va: Seq<u8>,
    kb: Seq<u8>,
    vb: Seq<u8>,
    kc: Seq<u8>,
    vc: Seq<u8>,
)
    requires
        ka != kc,
        kb != kc,
    ensures
        index_root_of(empty_contents().insert(ka, va).insert(kb, vb).insert(kc, vc).remove(kc))
            == index_root_of(empty_contents().insert(ka, va).insert(kb, vb)),
{
    assert(empty_contents().insert(ka, va).insert(kb, vb).insert(kc, vc).remove(kc)
        =~= empty_contents().insert(ka, va).insert(kb, vb));
}

/// Additive deposits: a deposit writes the old balance plus the received
/// value, so two deposits in sequence leave the slot holding their sum on top
/// of the starting balance, as the next lookup reads it.
pub proof fn deposits_accumulate(m: Map<Seq<u8>, Seq<u8>>, k: Seq<u8>, b: u128, v1: u128, v2: u128)
    requires
        stored_amount(m, k) == Some(b),
        b + v1 + v2 <= u128::MAX,
    ensures
        stored_amount(m.insert(k, amount_enc_spec((b + v1) as u128)), k) == Some((b + v1) as u128),
        stored_amount(
            m.insert(k, amount_enc_spec((b + v1) as u128)).insert(
                k,
                amount_enc_spec((b + v1 + v2) as u128),
            ),
            k,
        ) == Some((b + v1 + v2) as u128),
{
    lemma_amount_round_trip((b + v1) as u128);
    lemma_amount_round_trip((b + v1 + v2) as u128);
}

/// A fresh index holds only positive balances, vacuously.
pub proof fn wf_empty()
    ensures
        index_wf(empty_contents()),
{
}

/// Zero balances never persist, deposit case: writing a positive balance into
/// a well-formed index leaves it well-formed; the operations never write a
/// zero one.
pub proof fn wf_after_deposit(m: Map<Seq<u8>, Seq<u8>>, k: Seq<u8>, a: u128)
    requires
        index_wf(m),
        a > 0,
    ensures
        index_wf(m.insert(k, amount_enc_spec(a))),
{
    lemma_amount_round_trip(a);
}

/// Zero balances never persist, award case: an award deletes the slot's entry
/// outright, so the index stays well-formed and the slot reads as zero and is
/// absent from any listing of the new content set.
pub proof fn wf_after_award(m: Map<Seq<u8>, Seq<u8>>, k: Seq<u8>)
    requires
        index_wf(m),
    ensures
        index_wf(m.remove(k)),
        stored_amount(m.remove(k), k) == Some(0u128),
        !m.remove(k).contains_key(k),
{
}

/// No double payout: after an award that drained a slot, the slot's balance
/// reads as zero, so a second award of the same slot requests no transfer and
/// publishes nothing — by the award contract's zero-balance case.
pub proof fn no_double_payout(m: Map<Seq<u8>, Seq<u8>>, k: Seq<u8>)
    ensures
        stored_amount(m.remove(k), k) == Some(0u128),
{
}

} // verus!
