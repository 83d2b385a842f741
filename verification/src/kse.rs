//! Kotoba streams: the journal (an ordered log of published entries), the
//! shelf (identifier-keyed buckets of revisioned values) and the vault
//! (content-addressed blobs).
use vstd::prelude::*;
use crate::cid::{cid_bytes_of, multibase_of, KotobaCid};
use crate::keymap::KeyMap;
use crate::source_chain::now_ms;
use crate::text::{decimal, push_decimal, push_str_chars, string_from_chars};

verus! {

/// One ordered record of a topic's log.
#[derive(Debug)]
pub struct JournalEntry {
    pub seq: u64,
    /// Milliseconds since the Unix epoch.
    pub ts: u64,
    pub topic: String,
    pub payload: Vec<u8>,
    /// Identifier of the payload.
    pub cid: KotobaCid,
}

/// Acknowledgement of a cursor position.
#[derive(Debug)]
pub struct CursorAck;

/// The ordering core of a journal: the sequence number of the last entry.
#[derive(Debug)]
pub struct Journal {
    seq: u64,
}

impl Journal {
    /// Sequence number of the last published entry (0 before any).
    pub closed spec fn last_seq(&self) -> u64 {
        self.seq
    }

    /// Sequence number of the last published entry.
    pub fn sequence(&self) -> (n: u64)
        ensures
            n == self.last_seq(),
    {
        self.seq
    }

    /// A journal with no entries.
    pub fn new() -> (j: Journal)
        ensures
            j.last_seq() == 0,
    {
        Journal { seq: 0 }
    }

    /// Publishes a payload on a topic: the entry gets the next sequence
    /// number, the current time and the payload's identifier.
    pub fn publish(&mut self, topic: String, payload: Vec<u8>) -> (e: JournalEntry)
        requires
            old(self).last_seq() < u64::MAX,
        ensures
            final(self).last_seq() == old(self).last_seq() + 1,
            e.seq == final(self).last_seq(),
            e.topic == topic,
            e.payload == payload,
            e.cid.0@ == cid_bytes_of(payload@),
    {
        self.seq = self.seq + 1;
        let cid = KotobaCid::from_bytes(payload.as_slice());
        JournalEntry { seq: self.seq, ts: now_ms(), topic, payload, cid }
    }
}

impl Default for Journal {
    fn default() -> (j: Journal)
        ensures
            j.last_seq() == 0,
    {
        Journal::new()
    }
}

/// A fresh cursor identifier: `cursor-<milliseconds>`.
pub fn uuid() -> (s: String)
    ensures
        exists|t: u64| s@ == "cursor-"@ + decimal(t as nat),
{
    let t = now_ms();
    let mut out: Vec<char> = Vec::new();
    push_str_chars(&mut out, "cursor-");
    push_decimal(&mut out, t);
    let s = string_from_chars(&out);
    assert(s@ =~= "cursor-"@ + decimal(t as nat));
    s
}

/// The key an entry is persisted under: `<cid multibase>.cbor`.
pub fn entry_store_key(entry: &JournalEntry) -> (k: String)
    ensures
        k@ == multibase_of(entry.cid.0@) + ".cbor"@,
{
    let mut out: Vec<char> = Vec::new();
    push_str_chars(&mut out, entry.cid.to_multibase().as_str());
    push_str_chars(&mut out, ".cbor");
    string_from_chars(&out)
}

/// Bucket of block identifiers.
pub const BUCKET_BLOCKS: &'static str = "KOTOBA_BLOCKS";
/// Bucket of graphs.
pub const BUCKET_GRAPHS: &'static str = "KOTOBA_GRAPHS";
/// Bucket of graph heads.
pub const BUCKET_HEADS: &'static str = "KOTOBA_HEADS";
/// Bucket of capability delegations.
pub const BUCKET_UCANS: &'static str = "KOTOBA_UCANS";
/// Bucket of warrants.
pub const BUCKET_WARRANTS: &'static str = "KOTOBA_WARRANTS";
/// Bucket of weight blob identifiers.
pub const BUCKET_WEIGHTS: &'static str = "KOTOBA_WEIGHTS";

/// Model of a bucket: key to (value, revision).
pub type BucketView = Map<Seq<char>, (Seq<u8>, u64)>;

/// The revision a put of `k` gets: one more than the current, or 1.
pub open spec fn next_revision(m: BucketView, k: Seq<char>) -> u64 {
    if m.contains_key(k) {
        (m[k].1 + 1) as u64
    } else {
        1
    }
}

/// Whether a put of `k` can take a next revision.
pub open spec fn revision_room(m: BucketView, k: Seq<char>) -> bool {
    m.contains_key(k) ==> m[k].1 < u64::MAX
}

/// A named key-value bucket whose values carry revisions.
#[derive(Debug)]
pub struct ShelfBucket {
    pub name: String,
    entries: KeyMap<String, (Vec<u8>, u64)>,
}

impl ShelfBucket {
    /// The bucket's name.
    pub closed spec fn bucket_name(&self) -> Seq<char> {
        self.name@
    }

    /// The bucket's contents.
    pub closed spec fn entries(&self) -> BucketView {
        self.entries@.map_values(|e: (Vec<u8>, u64)| (e.0@, e.1))
    }

    /// An empty bucket.
    pub fn new(name: &str) -> (b: ShelfBucket)
        ensures
            b.bucket_name() == name@,
            b.entries() == BucketView::empty(),
    {
        let b = ShelfBucket { name: name.to_owned(), entries: KeyMap::new() };
        assert(b.entries() =~= BucketView::empty());
        b
    }

    /// The value of a key.
    pub fn get(&self, key: &str) -> (r: Option<&Vec<u8>>)
        ensures
            match r {
                Some(v) => self.entries().contains_key(key@) && v@ == self.entries()[key@].0,
                None => !self.entries().contains_key(key@),
            },
    {
        let k = key.to_owned();
        match self.entries.get(&k) {
            Some(e) => Some(&e.0),
            None => None,
        }
    }

    /// Stores a value under a key and returns its revision.
    pub fn put(&mut self, key: String, value: Vec<u8>) -> (rev: u64)
        requires
            revision_room(old(self).entries(), key@),
        ensures
            rev == next_revision(old(self).entries(), key@),
            final(self).entries() == old(self).entries().insert(key@, (value@, rev)),
            final(self).bucket_name() == old(self).bucket_name(),
    {
        let rev: u64 = match self.entries.get(&key) {
            Some(e) => e.1 + 1,
            None => 1,
        };
        let ghost kv = key@;
        let ghost vv = value@;
        self.entries.insert(key, (value, rev));
        assert(self.entries() =~= old(self).entries().insert(kv, (vv, rev)));
        rev
    }

    /// Removes a key.
    pub fn delete(&mut self, key: &str)
        ensures
            final(self).entries() == old(self).entries().remove(key@),
            final(self).bucket_name() == old(self).bucket_name(),
    {
        let k = key.to_owned();
        self.entries.remove(&k);
        assert(self.entries() =~= old(self).entries().remove(key@));
    }
}

/// Model of a shelf: bucket name to bucket contents.
pub type ShelfView = Map<Seq<char>, BucketView>;

/// What a read of `k` in bucket `b` gives.
pub open spec fn shelf_get(m: ShelfView, b: Seq<char>, k: Seq<char>) -> Option<Seq<u8>> {
    if m.contains_key(b) && m[b].contains_key(k) {
        Some(m[b][k].0)
    } else {
        None
    }
}

/// The contents of bucket `b` (empty when it does not exist yet).
pub open spec fn bucket_of(m: ShelfView, b: Seq<char>) -> BucketView {
    if m.contains_key(b) {
        m[b]
    } else {
        BucketView::empty()
    }
}

/// The shelf after a put of `v` under `k` in bucket `b` at revision `rev`;
/// a missing bucket is created.
pub open spec fn shelf_put(m: ShelfView, b: Seq<char>, k: Seq<char>, v: Seq<u8>, rev: u64) -> ShelfView {
    m.insert(b, bucket_of(m, b).insert(k, (v, rev)))
}

/// The buckets a shelf starts with.
pub open spec fn standard_buckets() -> Set<Seq<char>> {
    set![
        BUCKET_BLOCKS@,
        BUCKET_GRAPHS@,
        BUCKET_HEADS@,
        BUCKET_UCANS@,
        BUCKET_WARRANTS@,
        BUCKET_WEIGHTS@,
    ]
}

/// Identifier-keyed buckets of revisioned values.
#[derive(Debug)]
pub struct Shelf {
    buckets: KeyMap<String, ShelfBucket>,
}

impl View for Shelf {
    type V = ShelfView;

    closed spec fn view(&self) -> ShelfView {
        self.buckets@.map_values(|b: ShelfBucket| b.entries())
    }
}

impl Shelf {
    fn add_bucket(&mut self, name: &str)
        ensures
            final(self)@ == old(self)@.insert(name@, BucketView::empty()),
    {
        let b = ShelfBucket::new(name);
        self.buckets.insert(name.to_owned(), b);
        assert(self@ =~= old(self)@.insert(name@, BucketView::empty()));
    }

    /// A shelf with the six standard buckets, all empty.
    pub fn new() -> (s: Shelf)
        ensures
            s@.dom() == standard_buckets(),
            forall|b: Seq<char>| #[trigger] s@.contains_key(b) ==> s@[b] == BucketView::empty(),
    {
        let mut s = Shelf { buckets: KeyMap::new() };
        assert(s@ =~= ShelfView::empty());
        s.add_bucket(BUCKET_BLOCKS);
        s.add_bucket(BUCKET_GRAPHS);
        s.add_bucket(BUCKET_HEADS);
        s.add_bucket(BUCKET_UCANS);
        s.add_bucket(BUCKET_WARRANTS);
        s.add_bucket(BUCKET_WEIGHTS);
        assert(s@.dom() =~= standard_buckets());
        s
    }

    /// The value of `key` in `bucket`.
    pub fn get(&self, bucket: &str, key: &str) -> (r: Option<Vec<u8>>)
        ensures
            match shelf_get(self@, bucket@, key@) {
                Some(v) => r matches Some(x) && x@ == v,
                None => r is None,
            },
    {
        let b = bucket.to_owned();
        match self.buckets.get(&b) {
            Some(bk) => match bk.get(key) {
                Some(v) => Some(v.clone()),
                None => None,
            },
            None => None,
        }
    }

    /// Stores a value under `key` in `bucket` (created if missing) and
    /// returns its revision.
    pub fn put(&mut self, bucket: &str, key: String, value: Vec<u8>) -> (rev: u64)
        requires
            revision_room(bucket_of(old(self)@, bucket@), key@),
        ensures
            rev == next_revision(bucket_of(old(self)@, bucket@), key@),
            final(self)@ == shelf_put(old(self)@, bucket@, key@, value@, rev),
    {
        let b = bucket.to_owned();
        let mut bk = match self.buckets.take(&b) {
            Some(bk) => bk,
            None => ShelfBucket::new(bucket),
        };
        assert(bk.entries() == bucket_of(old(self)@, bucket@));
        let ghost kv = key@;
        let ghost vv = value@;
        let rev = bk.put(key, value);
        self.buckets.insert(b, bk);
        assert(self@ =~= shelf_put(old(self)@, bucket@, kv, vv, rev));
        rev
    }

    /// The recorded head commit of a graph, when a 36-byte value is stored
    /// for it in the heads bucket.
    pub fn get_head(&self, graph_cid: &KotobaCid) -> (r: Option<KotobaCid>)
        ensures
            match shelf_get(self@, BUCKET_HEADS@, multibase_of(graph_cid.0@)) {
                Some(b) => if b.len() == 36 {
                    r matches Some(c) && c.0@ == b
                } else {
                    r is None
                },
                None => r is None,
            },
    {
        let key = graph_cid.to_multibase();
        match self.get(BUCKET_HEADS, key.as_str()) {
            Some(bytes) => {
                if bytes.len() == 36 {
                    let mut arr = [0u8; 36];
                    let mut i: usize = 0;
                    while i < 36
                        invariant
                            i <= 36,
                            bytes@.len() == 36,
                            arr@.len() == 36,
                            forall|j: int| 0 <= j < i ==> arr@[j] == bytes@[j],
                        decreases 36 - i,
                    {
                        arr[i] = bytes[i];
                        i += 1;
                    }
                    assert(arr@ =~= bytes@);
                    Some(KotobaCid(arr))
                } else {
                    None
                }
            },
            None => None,
        }
    }

    /// Records `commit_cid` as the head of a graph.
    pub fn set_head(&mut self, graph_cid: &KotobaCid, commit_cid: &KotobaCid)
        requires
            revision_room(bucket_of(old(self)@, BUCKET_HEADS@), multibase_of(graph_cid.0@)),
        ensures
            final(self)@ == shelf_put(
                old(self)@,
                BUCKET_HEADS@,
                multibase_of(graph_cid.0@),
                commit_cid.0@,
                next_revision(bucket_of(old(self)@, BUCKET_HEADS@), multibase_of(graph_cid.0@)),
            ),
    {
        let key = graph_cid.to_multibase();
        let mut v: Vec<u8> = Vec::new();
        for i in 0..36
            invariant
                v@ == commit_cid.0@.take(i as int),
        {
            v.push(commit_cid.0[i]);
            assert(commit_cid.0@.take(i + 1) =~= commit_cid.0@.take(i as int).push(commit_cid.0@[i as int]));
        }
        assert(commit_cid.0@.take(36) =~= commit_cid.0@);
        let _ = self.put(BUCKET_HEADS, key, v);
    }
}

/// A value written under a key reads back, in any shelf.
pub proof fn lemma_shelf_read_after_write(m: ShelfView, b: Seq<char>, k: Seq<char>, v: Seq<u8>, rev: u64)
    ensures
        shelf_get(shelf_put(m, b, k, v, rev), b, k) == Some(v),
{
}

/// A write leaves every other key of every bucket as it was.
pub proof fn lemma_shelf_write_isolated(
    m: ShelfView,
    b: Seq<char>,
    k: Seq<char>,
    v: Seq<u8>,
    rev: u64,
    b2: Seq<char>,
    k2: Seq<char>,
)
    requires
        b2 != b || k2 != k,
    ensures
        shelf_get(shelf_put(m, b, k, v, rev), b2, k2) == shelf_get(m, b2, k2),
{
}

/// After a head is recorded for a graph, the graph's head reads back as it.
pub proof fn lemma_head_roundtrip(m: ShelfView, g: Seq<u8>, c: Seq<u8>, rev: u64)
    requires
        c.len() == 36,
    ensures
        shelf_get(shelf_put(m, BUCKET_HEADS@, multibase_of(g), c, rev), BUCKET_HEADS@, multibase_of(g))
            == Some(c),
{
}

/// A reference to a content-addressed blob.
#[derive(Debug, Clone, Copy)]
pub struct BlobRef {
    pub cid: KotobaCid,
    pub size: usize,
}

/// Content-addressed blob store, keyed by the blob identifier's multibase.
#[derive(Debug)]
pub struct Vault {
    blobs: KeyMap<String, Vec<u8>>,
}

impl View for Vault {
    type V = Map<Seq<char>, Seq<u8>>;

    closed spec fn view(&self) -> Map<Seq<char>, Seq<u8>> {
        self.blobs@.map_values(|b: Vec<u8>| b@)
    }
}

/// What a read of the blob with identifier bytes `c` gives.
pub open spec fn vault_get(m: Map<Seq<char>, Seq<u8>>, c: Seq<u8>) -> Option<Seq<u8>> {
    if m.contains_key(multibase_of(c)) {
        Some(m[multibase_of(c)])
    } else {
        None
    }
}

impl Vault {
    /// An empty vault.
    pub fn new() -> (v: Vault)
        ensures
            v@ == Map::<Seq<char>, Seq<u8>>::empty(),
    {
        let v = Vault { blobs: KeyMap::new() };
        assert(v@ =~= Map::<Seq<char>, Seq<u8>>::empty());
        v
    }

    /// Stores a blob under its identifier.
    pub fn put(&mut self, data: Vec<u8>) -> (r: BlobRef)
        ensures
            r.cid.0@ == cid_bytes_of(data@),
            r.size == data@.len(),
            final(self)@ == old(self)@.insert(multibase_of(r.cid.0@), data@),
    {
        let cid = KotobaCid::from_bytes(data.as_slice());
        let key = cid.to_multibase();
        let size = data.len();
        let ghost dv = data@;
        let ghost kv = key@;
        self.blobs.insert(key, data);
        assert(self@ =~= old(self)@.insert(kv, dv));
        BlobRef { cid, size }
    }

    /// The blob with identifier `cid`.
    pub fn get(&self, cid: &KotobaCid) -> (r: Option<Vec<u8>>)
        ensures
            match vault_get(self@, cid.0@) {
                Some(b) => r matches Some(x) && x@ == b,
                None => r is None,
            },
    {
        let key = cid.to_multibase();
        match self.blobs.get(&key) {
            Some(b) => Some(b.clone()),
            None => None,
        }
    }

    /// Whether a blob with identifier `cid` is stored.
    pub fn contains(&self, cid: &KotobaCid) -> (b: bool)
        ensures
            b == self@.contains_key(multibase_of(cid.0@)),
    {
        let key = cid.to_multibase();
        self.blobs.contains_key(&key)
    }
}

/// A blob put into a vault reads back by the identifier it was given.
pub proof fn lemma_vault_put_get(m: Map<Seq<char>, Seq<u8>>, data: Seq<u8>)
    ensures
        vault_get(m.insert(multibase_of(cid_bytes_of(data)), data), cid_bytes_of(data)) == Some(data),
{
}

} // verus!
