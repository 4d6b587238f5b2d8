use vstd::prelude::*;

use crate::codec::{
    decode_pair, encode_pair, lemma_lp_round_trip, lemma_pow256_16, lp_dec, lp_enc,
};
use crate::store::{block_at, cid_of, ContentStore};
use crate::OpError;

verus! {

/// The root-level ledger record: who may award bounties, and the current
/// root of the persistent bounty index. Exactly one instance is live at a
/// time, the one the published state root points at; a mutating operation
/// replaces it wholesale and publishes the replacement's identifier.
pub struct State {
    /// Canonical address bytes of the one identity allowed to award.
    pub trusted_address: Vec<u8>,
    /// Root content identifier of the persistent bounty index.
    pub bounties_map: Vec<u8>,
}

/// The canonical byte form of a state record.
pub open spec fn state_enc_spec(trusted: Seq<u8>, root: Seq<u8>) -> Seq<u8> {
    lp_enc(trusted, root)
}

/// What holds of a root identifier that `save` returned for a record: it is
/// the content identifier of the record's canonical bytes, and the store
/// holds those very bytes under it, so a later load reads this record back.
pub open spec fn saved_record(c: Seq<u8>, trusted: Seq<u8>, iroot: Seq<u8>) -> bool {
    c == cid_of(state_enc_spec(trusted, iroot)) && block_at(c) == state_enc_spec(trusted, iroot)
}

impl State {
    /// Canonically encodes this record.
    pub fn encode(&self) -> (r: Vec<u8>)
        ensures
            r@ == state_enc_spec(self.trusted_address@, self.bounties_map@),
    {
        encode_pair(&self.trusted_address, &self.bounties_map)
    }

    /// Decodes a canonical record, or refuses bytes that are not one.
    pub fn decode(b: &Vec<u8>) -> (r: Option<State>)
        ensures
            r matches Some(st) ==> lp_dec(b@) == Some((st.trusted_address@, st.bounties_map@)),
            r is None ==> lp_dec(b@) is None,
    {
        match decode_pair(b) {
            Some(p) => Some(State { trusted_address: p.0, bounties_map: p.1 }),
            None => None,
        }
    }

    /// Stores this record as a new immutable block and returns its content
    /// identifier; publishing that identifier as the current root is the
    /// caller's last step, so a published record is always already durable.
    pub fn save(&self, store: &ContentStore) -> (r: Result<Vec<u8>, OpError>)
        ensures
            r matches Ok(c) ==> saved_record(c@, self.trusted_address@, self.bounties_map@),
            r matches Err(e) ==> e == OpError::IllegalState,
    {
        let bytes = self.encode();
        store.put_block(&bytes)
    }

    /// Fetches the block the given root identifier commits to and decodes it
    /// as the live record. Any failure is fatal to the calling operation.
    pub fn load(store: &ContentStore, root: &Vec<u8>) -> (r: Result<State, OpError>)
        ensures
            r matches Ok(st) ==> lp_dec(block_at(root@)) == Some(
                (st.trusted_address@, st.bounties_map@),
            ),
            lp_dec(block_at(root@)) is None ==> r is Err,
            r matches Err(e) ==> e == OpError::IllegalState,
    {
        match store.get_block(root) {
            Ok(Some(bytes)) => match State::decode(&bytes) {
                Some(st) => Ok(st),
                None => Err(OpError::IllegalState),
            },
            Ok(None) => Err(OpError::IllegalState),
            Err(e) => Err(e),
        }
    }
}

/// A saved record loads back equal in all fields: its canonical encoding
/// decodes to exactly the two fields it was built from. Together with the
/// store's contract on `put_block` — a stored block is read back intact from
/// under its content identifier — this is the whole save/load round trip.
pub proof fn lemma_record_round_trip(trusted: Seq<u8>, root: Seq<u8>)
    requires
        trusted.len() < 0x1_0000_0000_0000_0000,
    ensures
        lp_dec(state_enc_spec(trusted, root)) == Some((trusted, root)),
{
    lemma_pow256_16();
    lemma_lp_round_trip(trusted, root);
}

} // verus!
