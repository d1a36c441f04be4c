use vstd::prelude::*;

use crate::error::GetError;
use crate::meta::{decode_meta, decode_names};
use crate::store::{hash_seq_entries, hash_seq_ok, parse_hash_seq, ContentStore, MAX_HASH_SEQ_SIZE};

verus! {

/// An ordered list of named entries, each naming its content by hash.
pub struct Collection {
    names: Vec<String>,
    hashes: Vec<Vec<u8>>,
}

impl Collection {
    /// The entry names, in order.
    pub closed spec fn names(&self) -> Seq<Seq<char>> {
        Seq::new(self.names@.len(), |i: int| self.names@[i]@)
    }

    /// The entry hashes, in order.
    pub closed spec fn hashes(&self) -> Seq<Seq<u8>> {
        Seq::new(self.hashes@.len(), |i: int| self.hashes@[i]@)
    }

    /// Every name has a hash.
    pub closed spec fn wf(&self) -> bool {
        self.names@.len() == self.hashes@.len()
    }

    /// Names and hashes come in pairs.
    pub proof fn lemma_paired(&self)
        requires
            self.wf(),
        ensures
            self.names().len() == self.hashes().len(),
    {
    }

    /// The number of entries.
    pub fn len(&self) -> (r: usize)
        requires
            self.wf(),
        ensures
            r == self.names().len(),
            r == self.hashes().len(),
    {
        self.names.len()
    }

    /// The name of entry `i`.
    pub fn name(&self, i: usize) -> (r: &String)
        requires
            self.wf(),
            i < self.names().len(),
        ensures
            r@ == self.names()[i as int],
    {
        &self.names[i]
    }

    /// The hash of entry `i`.
    pub fn hash(&self, i: usize) -> (r: &Vec<u8>)
        requires
            self.wf(),
            i < self.hashes().len(),
        ensures
            r@ == self.hashes()[i as int],
    {
        &self.hashes[i]
    }
}

/// The collection rooted at `root`, as names and hashes in order. The root object is a
/// hash sequence within the size ceiling whose first hash names the metadata, which lists
/// the entry names; the further hashes are the entries' content, one per name.
pub open spec fn collection_entries(store: Map<Seq<u8>, Seq<u8>>, root: Seq<u8>) -> Option<
    (Seq<Seq<char>>, Seq<Seq<u8>>),
> {
    if !store.contains_key(root) || !hash_seq_ok(store[root], MAX_HASH_SEQ_SIZE) {
        None
    } else {
        let hs = hash_seq_entries(store[root]);
        if hs.len() == 0 || !store.contains_key(hs[0]) {
            None
        } else {
            match decode_meta(store[hs[0]]) {
                None => None,
                Some(names) => if names.len() + 1 == hs.len() {
                    Some((names, hs.drop_first()))
                } else {
                    None
                },
            }
        }
    }
}

/// Loads the collection rooted at `root` from the verified store; fails with `Manifest`
/// where the root object, or its metadata, is missing or malformed, or where the number
/// of names does not match the number of content hashes.
pub fn load_collection(store: &ContentStore, root: &[u8]) -> (r: Result<Collection, GetError>)
    requires
        store.wf(),
    ensures
        r is Ok <==> collection_entries(store@, root@) is Some,
        r matches Err(e) ==> e == GetError::Manifest,
        r matches Ok(c) ==> c.wf() && collection_entries(store@, root@) == Some((c.names(), c.hashes())),
{
    let data = match store.get(root) {
        Some(d) => d,
        None => {
            return Err(GetError::Manifest);
        },
    };
    let seq = match parse_hash_seq(data.as_slice(), MAX_HASH_SEQ_SIZE) {
        Ok(s) => s,
        Err(e) => {
            return Err(e);
        },
    };
    if seq.len() == 0 {
        return Err(GetError::Manifest);
    }
    let meta = match store.get(seq[0].as_slice()) {
        Some(m) => m,
        None => {
            return Err(GetError::Manifest);
        },
    };
    let names = match decode_names(meta.as_slice()) {
        Some(n) => n,
        None => {
            return Err(GetError::Manifest);
        },
    };
    if seq.len() - 1 != names.len() {
        return Err(GetError::Manifest);
    }
    let mut hashes: Vec<Vec<u8>> = Vec::new();
    let mut i: usize = 1;
    while i < seq.len()
        invariant
            1 <= i <= seq@.len(),
            hashes@.len() == i - 1,
            forall|j: int| 0 <= j < i - 1 ==> #[trigger] hashes@[j]@ == seq@[j + 1]@,
        decreases seq@.len() - i,
    {
        hashes.push(seq[i].clone());
        i = i + 1;
    }
    let c = Collection { names, hashes };
    assert(c.hashes() =~= hash_seq_entries(store@[root@]).drop_first());
    Ok(c)
}

} // verus!
