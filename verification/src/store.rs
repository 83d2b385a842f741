//! Block stores: content-addressed blocks keyed by their identifiers, the
//! verified put, an in-memory store, and a store that records every put.
use vstd::prelude::*;
use crate::cid::{cid_bytes_of, multibase_of, KotobaCid};
use crate::keymap::KeyMap;
use crate::text::{push_str_chars, string_from_chars};

verus! {

/// `std::io::Error`, carried by store errors.
#[verifier::external_type_specification]
#[verifier::external_body]
pub struct ExIoError(std::io::Error);

/// Why a store operation failed.
#[derive(Debug)]
pub enum StoreError {
    /// The backing storage failed.
    Io(std::io::Error),
    /// The block's content does not have the identifier it was put under
    /// (both as multibase).
    CidMismatch { expected: String, got: String },
}

/// A store of blocks keyed by content identifier.
///
/// Each operation's outcome is related to the store and the arguments by a
/// spec function that the store may define. By default every outcome counts,
/// so a store claims nothing unless it says more.
pub trait BlockStore {
    /// Whether a put of `data` under `cid` may take this store to `after`
    /// with result `r`.
    open spec fn put_outcome(&self, after: &Self, cid: KotobaCid, data: Seq<u8>, r: Result<(), StoreError>) -> bool {
        true
    }

    /// Whether `r` may be what a get of `cid` on this store returns.
    open spec fn get_outcome(&self, cid: KotobaCid, r: Result<Option<Vec<u8>>, StoreError>) -> bool {
        true
    }

    /// Whether `b` may be what a check for `cid` on this store returns.
    open spec fn has_outcome(&self, cid: KotobaCid, b: bool) -> bool {
        true
    }

    /// Whether a delete of `cid` may take this store to `after` with result `r`.
    open spec fn delete_outcome(&self, after: &Self, cid: KotobaCid, r: Result<(), StoreError>) -> bool {
        true
    }

    fn put(&mut self, cid: &KotobaCid, data: &[u8]) -> (r: Result<(), StoreError>)
        ensures
            old(self).put_outcome(final(self), *cid, data@, r),
    ;

    fn get(&self, cid: &KotobaCid) -> (r: Result<Option<Vec<u8>>, StoreError>)
        ensures
            self.get_outcome(*cid, r),
    ;

    fn has(&self, cid: &KotobaCid) -> (b: bool)
        ensures
            self.has_outcome(*cid, b),
    ;

    fn delete(&mut self, cid: &KotobaCid) -> (r: Result<(), StoreError>)
        ensures
            old(self).delete_outcome(final(self), *cid, r),
    ;
}

/// Puts a block after checking that `data` has identifier `cid`: on a
/// mismatch nothing is written and the error names both identifiers; on a
/// match the block is handed to the store's `put`, whose outcome this is.
pub fn put_verified<S: BlockStore>(store: &mut S, cid: &KotobaCid, data: &[u8]) -> (r: Result<(), StoreError>)
    ensures
        cid_bytes_of(data@) != cid.0@ ==> *final(store) == *old(store) && (r matches Err(
            StoreError::CidMismatch { expected, got },
        ) && expected@ == multibase_of(cid.0@) && got@ == multibase_of(cid_bytes_of(data@))),
        cid_bytes_of(data@) == cid.0@ ==> old(store).put_outcome(final(store), *cid, data@, r),
{
    let computed = KotobaCid::from_bytes(data);
    if computed != *cid {
        return Err(StoreError::CidMismatch { expected: cid.to_multibase(), got: computed.to_multibase() });
    }
    store.put(cid, data)
}

/// Blocks held in memory.
#[derive(Debug)]
pub struct MemoryBlockStore {
    blocks: KeyMap<KotobaCid, Vec<u8>>,
}

impl View for MemoryBlockStore {
    type V = Map<Seq<u8>, Seq<u8>>;

    closed spec fn view(&self) -> Map<Seq<u8>, Seq<u8>> {
        self.blocks@.map_values(|b: Vec<u8>| b@)
    }
}

fn copy_slice(data: &[u8]) -> (v: Vec<u8>)
    ensures
        v@ == data@,
{
    let mut v: Vec<u8> = Vec::new();
    for i in 0..data.len()
        invariant
            v@ == data@.take(i as int),
    {
        v.push(data[i]);
        assert(data@.take(i + 1) =~= data@.take(i as int).push(data@[i as int]));
    }
    assert(data@.take(data@.len() as int) =~= data@);
    v
}

impl MemoryBlockStore {
    /// An empty store.
    pub fn new() -> (s: MemoryBlockStore)
        ensures
            s@ == Map::<Seq<u8>, Seq<u8>>::empty(),
    {
        let s = MemoryBlockStore { blocks: KeyMap::new() };
        assert(s@ =~= Map::<Seq<u8>, Seq<u8>>::empty());
        s
    }

    /// Number of blocks held.
    pub fn block_count(&self) -> (n: usize)
        ensures
            n == self@.dom().len(),
    {
        let n = self.blocks.len();
        assert(self@.dom() =~= self.blocks@.dom());
        n
    }
}

impl Default for MemoryBlockStore {
    fn default() -> (s: MemoryBlockStore)
        ensures
            s@ == Map::<Seq<u8>, Seq<u8>>::empty(),
    {
        MemoryBlockStore::new()
    }
}

impl BlockStore for MemoryBlockStore {
    /// A put stores the block and succeeds.
    open spec fn put_outcome(&self, after: &Self, cid: KotobaCid, data: Seq<u8>, r: Result<(), StoreError>) -> bool {
        r is Ok && after@ == self@.insert(cid.0@, data)
    }

    /// A get gives the block held, if any, and succeeds.
    open spec fn get_outcome(&self, cid: KotobaCid, r: Result<Option<Vec<u8>>, StoreError>) -> bool {
        r matches Ok(o) && match o {
            Some(b) => self@.contains_key(cid.0@) && b@ == self@[cid.0@],
            None => !self@.contains_key(cid.0@),
        }
    }

    /// A check tells whether the block is held.
    open spec fn has_outcome(&self, cid: KotobaCid, b: bool) -> bool {
        b == self@.contains_key(cid.0@)
    }

    /// A delete forgets the block and succeeds.
    open spec fn delete_outcome(&self, after: &Self, cid: KotobaCid, r: Result<(), StoreError>) -> bool {
        r is Ok && after@ == self@.remove(cid.0@)
    }

    /// Stores the block; always succeeds.
    fn put(&mut self, cid: &KotobaCid, data: &[u8]) -> (r: Result<(), StoreError>)
        ensures
            r is Ok,
            final(self)@ == old(self)@.insert(cid.0@, data@),
    {
        self.blocks.insert(*cid, copy_slice(data));
        assert(self@ =~= old(self)@.insert(cid.0@, data@));
        Ok(())
    }

    /// The block, if held; always succeeds.
    fn get(&self, cid: &KotobaCid) -> (r: Result<Option<Vec<u8>>, StoreError>)
        ensures
            r matches Ok(o) && (match o {
                Some(b) => self@.contains_key(cid.0@) && b@ == self@[cid.0@],
                None => !self@.contains_key(cid.0@),
            }),
    {
        match self.blocks.get(cid) {
            Some(b) => Ok(Some(b.clone())),
            None => Ok(None),
        }
    }

    /// Whether the block is held.
    fn has(&self, cid: &KotobaCid) -> (b: bool)
        ensures
            b == self@.contains_key(cid.0@),
    {
        self.blocks.contains_key(cid)
    }

    /// Forgets the block; always succeeds.
    fn delete(&mut self, cid: &KotobaCid) -> (r: Result<(), StoreError>)
        ensures
            r is Ok,
            final(self)@ == old(self)@.remove(cid.0@),
    {
        self.blocks.remove(cid);
        assert(self@ =~= old(self)@.remove(cid.0@));
        Ok(())
    }
}

/// A store that forwards every operation to an inner store and records each
/// successful put, in order, until drained.
#[derive(Debug)]
pub struct CapturingBlockStore<S: BlockStore> {
    inner: S,
    captured: Vec<(KotobaCid, Vec<u8>)>,
}

/// The models of captured puts.
pub open spec fn captured_view(c: Seq<(KotobaCid, Vec<u8>)>) -> Seq<(Seq<u8>, Seq<u8>)> {
    c.map_values(|e: (KotobaCid, Vec<u8>)| (e.0.0@, e.1@))
}

impl<S: BlockStore> CapturingBlockStore<S> {
    /// The puts recorded since the last drain.
    pub closed spec fn captured(&self) -> Seq<(Seq<u8>, Seq<u8>)> {
        captured_view(self.captured@)
    }

    /// The wrapped store.
    pub closed spec fn inner_store(&self) -> S {
        self.inner
    }

    /// Wraps a store, with nothing recorded.
    pub fn new(inner: S) -> (s: CapturingBlockStore<S>)
        ensures
            s.inner_store() == inner,
            s.captured().len() == 0,
    {
        CapturingBlockStore { inner, captured: Vec::new() }
    }

    /// The wrapped store.
    pub fn inner(&self) -> (r: &S)
        ensures
            *r == self.inner_store(),
    {
        &self.inner
    }

    /// Hands back the recorded puts, in order, and forgets them.
    pub fn drain(&mut self) -> (r: Vec<(KotobaCid, Vec<u8>)>)
        ensures
            captured_view(r@) == old(self).captured(),
            final(self).captured().len() == 0,
            final(self).inner_store() == old(self).inner_store(),
    {
        let mut out: Vec<(KotobaCid, Vec<u8>)> = Vec::new();
        std::mem::swap(&mut out, &mut self.captured);
        assert(captured_view(self.captured@) =~= Seq::<(Seq<u8>, Seq<u8>)>::empty());
        out
    }

    /// Number of recorded puts.
    pub fn len(&self) -> (n: usize)
        ensures
            n == self.captured().len(),
    {
        self.captured.len()
    }

    /// Whether no put is recorded.
    pub fn is_empty(&self) -> (b: bool)
        ensures
            b == (self.captured().len() == 0),
    {
        self.len() == 0
    }
}

impl<S: BlockStore> BlockStore for CapturingBlockStore<S> {
    /// The inner store's put, recorded when it succeeded.
    open spec fn put_outcome(&self, after: &Self, cid: KotobaCid, data: Seq<u8>, r: Result<(), StoreError>) -> bool {
        &&& self.inner_store().put_outcome(&after.inner_store(), cid, data, r)
        &&& r is Ok ==> after.captured() == self.captured().push((cid.0@, data))
        &&& r is Err ==> after.captured() == self.captured()
    }

    /// The inner store's get.
    open spec fn get_outcome(&self, cid: KotobaCid, r: Result<Option<Vec<u8>>, StoreError>) -> bool {
        self.inner_store().get_outcome(cid, r)
    }

    /// The inner store's check.
    open spec fn has_outcome(&self, cid: KotobaCid, b: bool) -> bool {
        self.inner_store().has_outcome(cid, b)
    }

    /// The inner store's delete; the record is kept.
    open spec fn delete_outcome(&self, after: &Self, cid: KotobaCid, r: Result<(), StoreError>) -> bool {
        &&& self.inner_store().delete_outcome(&after.inner_store(), cid, r)
        &&& after.captured() == self.captured()
    }

    /// Forwards the put; records it when the inner store accepted it.
    fn put(&mut self, cid: &KotobaCid, data: &[u8]) -> (r: Result<(), StoreError>)
        ensures
            old(self).inner_store().put_outcome(&final(self).inner_store(), *cid, data@, r),
            r is Ok ==> final(self).captured() == old(self).captured().push((cid.0@, data@)),
            r is Err ==> final(self).captured() == old(self).captured(),
    {
        self.inner.put(cid, data)?;
        let ghost before = self.captured@;
        self.captured.push((*cid, copy_slice(data)));
        assert(captured_view(self.captured@) =~= captured_view(before).push((cid.0@, data@)));
        Ok(())
    }

    /// Forwards the read.
    fn get(&self, cid: &KotobaCid) -> (r: Result<Option<Vec<u8>>, StoreError>)
        ensures
            self.inner_store().get_outcome(*cid, r),
    {
        self.inner.get(cid)
    }

    /// Forwards the check.
    fn has(&self, cid: &KotobaCid) -> (b: bool)
        ensures
            self.inner_store().has_outcome(*cid, b),
    {
        self.inner.has(cid)
    }

    /// Forwards the delete; the record is kept.
    fn delete(&mut self, cid: &KotobaCid) -> (r: Result<(), StoreError>)
        ensures
            old(self).inner_store().delete_outcome(&final(self).inner_store(), *cid, r),
            final(self).captured() == old(self).captured(),
    {
        self.inner.delete(cid)
    }
}

impl StoreError {
    /// Human-readable description.
    pub fn message(&self) -> (s: String)
        ensures
            self matches StoreError::CidMismatch { expected, got } ==> s@ == "cid mismatch: expected "@
                + expected@ + ", got "@ + got@,
            self is Io ==> s@.len() >= 10 && s@.take(10) == "io error: "@,
    {
        match self {
            StoreError::Io(e) => {
                let mut out: Vec<char> = Vec::new();
                push_str_chars(&mut out, "io error: ");
                let ghost head = out@;
                proof {
                    reveal_strlit("io error: ");
                }
                push_str_chars(&mut out, io_error_text(e).as_str());
                assert(out@.take(10) =~= head);
                string_from_chars(&out)
            },
            StoreError::CidMismatch { expected, got } => {
                let mut out: Vec<char> = Vec::new();
                push_str_chars(&mut out, "cid mismatch: expected ");
                push_str_chars(&mut out, expected.as_str());
                push_str_chars(&mut out, ", got ");
                push_str_chars(&mut out, got.as_str());
                let s = string_from_chars(&out);
                assert(s@ =~= "cid mismatch: expected "@ + expected@ + ", got "@ + got@);
                s
            },
        }
    }
}

/// The `Display` text of an I/O error (`e.to_string()`); it depends on the
/// operating system, so nothing is stated of it.
#[verifier::external_body]
fn io_error_text(e: &std::io::Error) -> String {
    e.to_string()
}

} // verus!
