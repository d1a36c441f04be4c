use vstd::prelude::*;

use vstd::slice::{slice_subrange, slice_to_vec};

use crate::error::GetError;

verus! {

/// The BLAKE3 digest of `data`.
pub uninterp spec fn blake3_of(data: Seq<u8>) -> Seq<u8>;

/// Size of a content hash in bytes.
pub const HASH_LEN: usize = 32;

/// Largest hash sequence accepted from a peer, in bytes.
pub const MAX_HASH_SEQ_SIZE: u64 = 33554432;

/// Relies on blake3::hash, which returns the 32-byte BLAKE3 digest of its input.
#[verifier::external_body]
fn content_hash(data: &[u8]) -> (r: Vec<u8>)
    ensures
        r@ == blake3_of(data@),
        r@.len() == 32,
{
    blake3::hash(data).as_bytes().to_vec()
}

/// Byte-wise equality of two sequences.
pub fn bytes_eq(a: &[u8], b: &[u8]) -> (r: bool)
    ensures
        r == (a@ == b@),
{
    if a.len() != b.len() {
        return false;
    }
    let mut i: usize = 0;
    while i < a.len()
        invariant
            a@.len() == b@.len(),
            i <= a@.len(),
            forall|j: int| 0 <= j < i ==> a@[j] == b@[j],
        decreases a@.len() - i,
    {
        if a[i] != b[i] {
            return false;
        }
        i = i + 1;
    }
    assert(a@ =~= b@);
    true
}

/// Accepts a chunk whose computed digest equals the declared one.
pub fn verify_chunk(declared: &[u8], computed: &[u8]) -> (r: Result<(), GetError>)
    ensures
        r is Ok <==> declared@ == computed@,
        r matches Err(e) ==> e == GetError::IntegrityMismatch,
{
    if bytes_eq(declared, computed) {
        Ok(())
    } else {
        Err(GetError::IntegrityMismatch)
    }
}

/// Verified content, keyed by hash. Entries are written once and never changed.
pub struct ContentStore {
    hashes: Vec<Vec<u8>>,
    blobs: Vec<Vec<u8>>,
}

impl ContentStore {
    /// Hash and content at every position agree, and no hash is stored twice.
    pub closed spec fn wf(&self) -> bool {
        &&& self.hashes@.len() == self.blobs@.len()
        &&& forall|i: int| 0 <= i < self.hashes@.len() ==> blake3_of(#[trigger] self.blobs@[i]@) == self.hashes@[i]@
        &&& forall|i: int, j: int|
            0 <= i < j < self.hashes@.len() ==> #[trigger] self.hashes@[i]@ != #[trigger] self.hashes@[j]@
    }

    spec fn has_at(&self, h: Seq<u8>, i: int) -> bool {
        0 <= i < self.hashes@.len() && self.hashes@[i]@ == h
    }

    /// Content by hash.
    pub closed spec fn view(&self) -> Map<Seq<u8>, Seq<u8>> {
        Map::new(
            |h: Seq<u8>| exists|i: int| self.has_at(h, i),
            |h: Seq<u8>| self.blobs@[choose|i: int| self.has_at(h, i)]@,
        )
    }

    proof fn lemma_view_at(&self, i: int)
        requires
            self.wf(),
            0 <= i < self.hashes@.len(),
        ensures
            self@.contains_key(self.hashes@[i]@),
            self@[self.hashes@[i]@] == self.blobs@[i]@,
    {
        let h = self.hashes@[i]@;
        assert(self.has_at(h, i));
        let j = choose|j: int| self.has_at(h, j);
        if i < j {
            assert(self.hashes@[i]@ != self.hashes@[j]@);
        } else if j < i {
            assert(self.hashes@[j]@ != self.hashes@[i]@);
        }
    }

    /// Everything the store holds hashes to its key.
    pub proof fn lemma_verified(&self, h: Seq<u8>)
        requires
            self.wf(),
            self@.contains_key(h),
        ensures
            blake3_of(self@[h]) == h,
    {
        let i = choose|i: int| self.has_at(h, i);
        self.lemma_view_at(i);
    }

    /// An empty store.
    pub fn new() -> (r: ContentStore)
        ensures
            r.wf(),
            r@ == Map::<Seq<u8>, Seq<u8>>::empty(),
    {
        let r = ContentStore { hashes: Vec::new(), blobs: Vec::new() };
        assert(r@ =~= Map::<Seq<u8>, Seq<u8>>::empty());
        r
    }

    fn find(&self, h: &[u8]) -> (r: Option<usize>)
        requires
            self.wf(),
        ensures
            r matches Some(i) ==> self.has_at(h@, i as int),
            r is None ==> !self@.contains_key(h@),
    {
        let mut i: usize = 0;
        while i < self.hashes.len()
            invariant
                self.wf(),
                i <= self.hashes@.len(),
                forall|j: int| 0 <= j < i ==> self.hashes@[j]@ != h@,
            decreases self.hashes@.len() - i,
        {
            if bytes_eq(self.hashes[i].as_slice(), h) {
                return Some(i);
            }
            i = i + 1;
        }
        None
    }

    /// The content stored under `h`, if any.
    pub fn get(&self, h: &[u8]) -> (r: Option<&Vec<u8>>)
        requires
            self.wf(),
        ensures
            r is Some <==> self@.contains_key(h@),
            r matches Some(b) ==> b@ == self@[h@],
    {
        match self.find(h) {
            Some(i) => {
                proof {
                    self.lemma_view_at(i as int);
                }
                Some(&self.blobs[i])
            },
            None => None,
        }
    }

    /// Stores `data` under `declared` once its BLAKE3 digest is shown to be `declared`.
    /// A mismatch leaves the store unchanged and fails with `IntegrityMismatch`; a hash that
    /// is already present is kept as it was.
    pub fn insert_verified(&mut self, declared: &[u8], data: Vec<u8>) -> (r: Result<(), GetError>)
        requires
            old(self).wf(),
        ensures
            final(self).wf(),
            r is Ok <==> blake3_of(data@) == declared@,
            r matches Err(e) ==> e == GetError::IntegrityMismatch && final(self)@ == old(self)@,
            r is Ok ==> final(self)@ == if old(self)@.contains_key(declared@) {
                old(self)@
            } else {
                old(self)@.insert(declared@, data@)
            },
    {
        let computed = content_hash(data.as_slice());
        match verify_chunk(declared, computed.as_slice()) {
            Err(e) => Err(e),
            Ok(()) => {
                match self.find(declared) {
                    Some(i) => {
                        proof {
                            self.lemma_view_at(i as int);
                        }
                        Ok(())
                    },
                    None => {
                        let ghost pre = *self;
                        self.hashes.push(computed);
                        self.blobs.push(data);
                        proof {
                            let n = pre.hashes@.len() as int;
                            assert forall|i: int| 0 <= i < n implies self.hashes@[i]@ != declared@ by {
                                if self.hashes@[i]@ == declared@ {
                                    assert(pre.has_at(declared@, i));
                                }
                            }
                            assert forall|i: int| 0 <= i < self.hashes@.len() implies #[trigger] blake3_of(self.blobs@[i]@) == self.hashes@[i]@ by {
                                if i < n {
                                    assert(pre.blobs@[i] == self.blobs@[i]);
                                }
                            }
                            self.lemma_view_at(n);
                            assert forall|h: Seq<u8>| #[trigger] self@.contains_key(h) <==> pre@.insert(declared@, data@).contains_key(h) by {
                                if pre@.contains_key(h) {
                                    let i = choose|i: int| pre.has_at(h, i);
                                    assert(self.has_at(h, i));
                                }
                                if self@.contains_key(h) && h != declared@ {
                                    let i = choose|i: int| self.has_at(h, i);
                                    assert(pre.has_at(h, i));
                                }
                            }
                            assert forall|h: Seq<u8>| #[trigger] self@.contains_key(h) implies self@[h] == pre@.insert(declared@, data@)[h] by {
                                if h != declared@ {
                                    let i = choose|i: int| self.has_at(h, i);
                                    assert(pre.has_at(h, i));
                                    self.lemma_view_at(i);
                                    pre.lemma_view_at(i);
                                }
                            }
                            assert(self@ =~= pre@.insert(declared@, data@));
                        }
                        Ok(())
                    },
                }
            },
        }
    }
}

/// The hashes that a hash sequence lists: consecutive 32-byte pieces.
pub open spec fn hash_seq_entries(data: Seq<u8>) -> Seq<Seq<u8>> {
    Seq::new((data.len() / 32) as nat, |i: int| data.subrange(32 * i, 32 * i + 32))
}

/// A hash sequence is accepted when it is at most `max_size` bytes long and made of whole hashes.
pub open spec fn hash_seq_ok(data: Seq<u8>, max_size: u64) -> bool {
    data.len() <= max_size && data.len() % 32 == 0
}

/// Splits a hash sequence into its hashes, refusing one that is too large or not made of
/// whole hashes with `Manifest`.
pub fn parse_hash_seq(data: &[u8], max_size: u64) -> (r: Result<Vec<Vec<u8>>, GetError>)
    ensures
        r is Ok <==> hash_seq_ok(data@, max_size),
        r matches Err(e) ==> e == GetError::Manifest,
        r matches Ok(v) ==> v@.len() == data@.len() / 32 && forall|i: int|
            0 <= i < v@.len() ==> #[trigger] v@[i]@ == hash_seq_entries(data@)[i],
{
    if data.len() as u64 > max_size || data.len() % HASH_LEN != 0 {
        return Err(GetError::Manifest);
    }
    let len = data.len();
    let n = len / HASH_LEN;
    let mut out: Vec<Vec<u8>> = Vec::new();
    let mut i: usize = 0;
    while i < n
        invariant
            len == data@.len(),
            n == data@.len() / 32,
            data@.len() % 32 == 0,
            i <= n,
            out@.len() == i,
            forall|j: int| 0 <= j < i ==> #[trigger] out@[j]@ == hash_seq_entries(data@)[j],
        decreases n - i,
    {
        assert(32 * i + 32 <= data@.len()) by (nonlinear_arith)
            requires
                i < n,
                n == data@.len() / 32,
        ;
        assert(32 * i + 32 <= len);
        let piece = slice_to_vec(slice_subrange(data, 32 * i, 32 * i + 32));
        out.push(piece);
        i = i + 1;
    }
    Ok(out)
}

} // verus!
