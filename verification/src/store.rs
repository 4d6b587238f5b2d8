use vstd::prelude::*;

use std::rc::Rc;

use crate::OpError;
use cid::Cid;
use fvm_ipld_blockstore::{Block, Blockstore, MemoryBlockstore};
use fvm_ipld_encoding::DAG_CBOR;
use fvm_ipld_hamt::{BytesKey, Config, Hamt};
use multihash_codetable::Code;

verus! {

// The two capabilities the ledger core builds on: a content-addressed block
// store, and the persistent index, a hash-trie of content-addressed nodes kept
// by the `fvm_ipld_hamt` crate on top of such a store. Everything the verified
// code knows about them is stated here, over four uninterpreted names, and
// trusted: the bodies in this module are not read by the verifier.
//
// The names below rest on the content-addressing discipline both crates
// document: a block's identifier is a cryptographic hash of its bytes, and the
// index root produced by `flush` is a hash over the full (key, value) set, so
// both are functions of content alone, and a root or block identifier commits
// to what is read back from under it.

/// The content identifier the store assigns to a block of bytes.
pub uninterp spec fn cid_of(data: Seq<u8>) -> Seq<u8>;

/// The bytes any store hands back for a content identifier, when it has them.
pub uninterp spec fn block_at(cid: Seq<u8>) -> Seq<u8>;

/// The (key, value) set a persistent index holds.
pub uninterp spec fn index_contents(i: BountyIndex) -> Map<Seq<u8>, Seq<u8>>;

/// The root content identifier that flushing a given (key, value) set yields.
pub uninterp spec fn index_root_of(m: Map<Seq<u8>, Seq<u8>>) -> Seq<u8>;

/// The (key, value) set any index loaded from a given root holds.
pub uninterp spec fn contents_at(root: Seq<u8>) -> Map<Seq<u8>, Seq<u8>>;

/// The contents of an index that holds nothing.
pub open spec fn empty_contents() -> Map<Seq<u8>, Seq<u8>> {
    Map::empty()
}

/// A content-addressed block store held in this process's memory.
#[verifier::external_body]
pub struct ContentStore {
    inner: Rc<MemoryBlockstore>,
}

impl ContentStore {
    /// Relies on `MemoryBlockstore::new` for an empty store.
    #[verifier::external_body]
    pub fn new() -> (r: ContentStore) {
        ContentStore { inner: Rc::new(MemoryBlockstore::new()) }
    }

    /// Relies on `Blockstore::put`: the returned identifier is the
    /// content hash of the stored bytes, and those very bytes are what any
    /// later read of that identifier yields.
    #[verifier::external_body]
    pub(crate) fn put_block(&self, data: &Vec<u8>) -> (r: Result<Vec<u8>, OpError>)
        ensures
            r matches Ok(c) ==> c@ == cid_of(data@) && block_at(cid_of(data@)) == data@,
            r matches Err(e) ==> e == OpError::IllegalState,
    {
        let block = Block::new(DAG_CBOR, data.as_slice());
        match self.inner.put(Code::Blake2b256, &block) {
            Ok(cid) => Ok(cid.to_bytes()),
            Err(_) => Err(OpError::IllegalState),
        }
    }

    /// Relies on `Blockstore::get`: a block found under a content identifier
    /// is the block that identifier was computed from.
    #[verifier::external_body]
    pub(crate) fn get_block(&self, cid: &Vec<u8>) -> (r: Result<Option<Vec<u8>>, OpError>)
        ensures
            r matches Ok(v) ==> (v matches Some(d) ==> d@ == block_at(cid@)),
            r matches Err(e) ==> e == OpError::IllegalState,
    {
        let c = match Cid::try_from(cid.as_slice()) {
            Ok(c) => c,
            Err(_) => return Err(OpError::IllegalState),
        };
        match self.inner.get(&c) {
            Ok(v) => Ok(v),
            Err(_) => Err(OpError::IllegalState),
        }
    }
}

/// The persistent index: a `fvm_ipld_hamt` hash-trie from canonical key bytes
/// to canonical value bytes, content-addressed in a block store.
#[verifier::external_body]
pub struct BountyIndex {
    inner: Hamt<Rc<MemoryBlockstore>, Vec<u8>, BytesKey>,
}

impl BountyIndex {
    /// Relies on `Hamt::new_with_config`: a fresh index holds nothing.
    #[verifier::external_body]
    pub(crate) fn empty(store: &ContentStore) -> (r: BountyIndex)
        ensures
            index_contents(r) == empty_contents(),
    {
        BountyIndex { inner: Hamt::new_with_config(Rc::clone(&store.inner), Config::default()) }
    }

    /// Relies on `Hamt::load_with_config`: whatever loads from a root holds
    /// exactly the set that root commits to.
    #[verifier::external_body]
    pub(crate) fn load(store: &ContentStore, root: &Vec<u8>) -> (r: Result<BountyIndex, OpError>)
        ensures
            r matches Ok(i) ==> index_contents(i) == contents_at(root@),
            r matches Err(e) ==> e == OpError::IllegalState,
    {
        let c = match Cid::try_from(root.as_slice()) {
            Ok(c) => c,
            Err(_) => return Err(OpError::IllegalState),
        };
        match Hamt::load_with_config(&c, Rc::clone(&store.inner), Config::default()) {
            Ok(h) => Ok(BountyIndex { inner: h }),
            Err(_) => Err(OpError::IllegalState),
        }
    }

    /// Relies on `Hamt::get`: a point lookup in the held set.
    #[verifier::external_body]
    pub(crate) fn get(&self, key: &Vec<u8>) -> (r: Result<Option<Vec<u8>>, OpError>)
        ensures
            r matches Ok(v) ==> match v {
                Some(d) => index_contents(*self).contains_key(key@) && d@ == index_contents(
                    *self,
                )[key@],
                None => !index_contents(*self).contains_key(key@),
            },
            r matches Err(e) ==> e == OpError::IllegalState,
    {
        match self.inner.get(key.as_slice()) {
            Ok(Some(v)) => Ok(Some(v.clone())),
            Ok(None) => Ok(None),
            Err(_) => Err(OpError::IllegalState),
        }
    }

    /// Relies on `Hamt::set`: an upsert of one key.
    #[verifier::external_body]
    pub(crate) fn set(&mut self, key: &Vec<u8>, value: &Vec<u8>) -> (r: Result<(), OpError>)
        ensures
            r is Ok ==> index_contents(*final(self)) == index_contents(*old(self)).insert(
                key@,
                value@,
            ),
            r matches Err(e) ==> e == OpError::IllegalState,
    {
        match self.inner.set(BytesKey(key.clone()), value.clone()) {
            Ok(_) => Ok(()),
            Err(_) => Err(OpError::IllegalState),
        }
    }

    /// Relies on `Hamt::delete`: removes one key; absent keys are left be.
    #[verifier::external_body]
    pub(crate) fn delete(&mut self, key: &Vec<u8>) -> (r: Result<(), OpError>)
        ensures
            r is Ok ==> index_contents(*final(self)) == index_contents(*old(self)).remove(key@),
            r matches Err(e) ==> e == OpError::IllegalState,
    {
        match self.inner.delete(key.as_slice()) {
            Ok(_) => Ok(()),
            Err(_) => Err(OpError::IllegalState),
        }
    }

    /// Relies on `Hamt::flush`: writes all dirty nodes bottom-up and returns
    /// the new root identifier, a pure hash of the held set; the held set
    /// itself does not change, and the returned root commits to it.
    #[verifier::external_body]
    pub(crate) fn flush(&mut self) -> (r: Result<Vec<u8>, OpError>)
        ensures
            index_contents(*final(self)) == index_contents(*old(self)),
            r matches Ok(c) ==> c@ == index_root_of(index_contents(*old(self))) && contents_at(c@)
                == index_contents(*old(self)),
            r matches Err(e) ==> e == OpError::IllegalState,
    {
        match self.inner.flush() {
            Ok(cid) => Ok(cid.to_bytes()),
            Err(_) => Err(OpError::IllegalState),
        }
    }

    /// Relies on `Hamt::for_each`: visits every held entry exactly once, in
    /// the trie's own deterministic hash-bucket order.
    #[verifier::external_body]
    pub(crate) fn entries(&self) -> (r: Result<Vec<(Vec<u8>, Vec<u8>)>, OpError>)
        ensures
            r matches Ok(es) ==> {
                let m = index_contents(*self);
                &&& forall|j: int|
                    0 <= j < es@.len() ==> #[trigger] m.contains_key(es@[j].0@) && m[es@[j].0@]
                        == es@[j].1@
                &&& forall|k: Seq<u8>|
                    #[trigger] m.contains_key(k) ==> exists|j: int|
                        0 <= j < es@.len() && es@[j].0@ == k
                &&& forall|j1: int, j2: int|
                    0 <= j1 < j2 < es@.len() ==> es@[j1].0@ != es@[j2].0@
                &&& es@.len() == m.dom().len()
            },
            r matches Err(e) ==> e == OpError::IllegalState,
    {
        let mut out: Vec<(Vec<u8>, Vec<u8>)> = Vec::new();
        let res = self.inner.for_each(|k, v: &Vec<u8>| {
            out.push((k.0.clone(), v.clone()));
            Ok(())
        });
        match res {
            Ok(()) => Ok(out),
            Err(_) => Err(OpError::IllegalState),
        }
    }
}

} // verus!
