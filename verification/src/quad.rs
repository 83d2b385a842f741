//! Quads and datoms: Kotoba's atomic facts, the deltas that carry them, and
//! the arrangement (an indexed set of datoms) that collects them.
use vstd::prelude::*;
use crate::cid::KotobaCid;
use vstd::utf8::encode_utf8;

verus! {

/// Element type of a tensor referenced by a quad object.
#[derive(Clone, Copy, Debug, PartialEq, Eq, Structural)]
pub enum TensorDtype {
    F32,
    F16,
    BF16,
    F8E4M3,
    F8E5M2,
}

/// Typed object of a quad. Floating-point values are held as their IEEE-754
/// bit patterns (`f64::to_bits`, `f32::to_bits`).
#[derive(Debug)]
pub enum QuadObject {
    Cid(KotobaCid),
    Integer(i64),
    Float(u64),
    Text(String),
    Bool(bool),
    Bytes(Vec<u8>),
    /// Embedding vector (dim <= 1024 inline); each element is an `f32` bit pattern.
    VectorF32(Vec<u32>),
    /// Tensor stored as a blob, referenced by its identifier.
    TensorCid { cid: KotobaCid, shape: Vec<u32>, dtype: TensorDtype },
    /// Encrypted value: ciphertext block and key-policy entry.
    Encrypted { ct_cid: KotobaCid, policy_cid: KotobaCid },
}

/// The value a datom carries; the same type as a quad object.
pub type Value = QuadObject;

/// Mathematical model of a quad object.
pub enum ObjectView {
    Cid(Seq<u8>),
    Integer(i64),
    Float(u64),
    Text(Seq<char>),
    Bool(bool),
    Bytes(Seq<u8>),
    VectorF32(Seq<u32>),
    TensorCid { cid: Seq<u8>, shape: Seq<u32>, dtype: TensorDtype },
    Encrypted { ct_cid: Seq<u8>, policy_cid: Seq<u8> },
}

impl View for QuadObject {
    type V = ObjectView;

    open spec fn view(&self) -> ObjectView {
        match self {
            QuadObject::Cid(c) => ObjectView::Cid(c.0@),
            QuadObject::Integer(i) => ObjectView::Integer(*i),
            QuadObject::Float(f) => ObjectView::Float(*f),
            QuadObject::Text(t) => ObjectView::Text(t@),
            QuadObject::Bool(b) => ObjectView::Bool(*b),
            QuadObject::Bytes(b) => ObjectView::Bytes(b@),
            QuadObject::VectorF32(v) => ObjectView::VectorF32(v@),
            QuadObject::TensorCid { cid, shape, dtype } => ObjectView::TensorCid {
                cid: cid.0@,
                shape: shape@,
                dtype: *dtype,
            },
            QuadObject::Encrypted { ct_cid, policy_cid } => ObjectView::Encrypted {
                ct_cid: ct_cid.0@,
                policy_cid: policy_cid.0@,
            },
        }
    }
}

/// A copy of a byte vector.
pub fn copy_bytes(v: &Vec<u8>) -> (r: Vec<u8>)
    ensures
        r@ == v@,
{
    let mut r: Vec<u8> = Vec::new();
    for i in 0..v.len()
        invariant
            r@ == v@.take(i as int),
    {
        r.push(v[i]);
        assert(v@.take(i + 1) =~= v@.take(i as int).push(v@[i as int]));
    }
    assert(v@.take(v.len() as int) =~= v@);
    r
}

/// A copy of a vector of 32-bit words.
pub fn copy_words(v: &Vec<u32>) -> (r: Vec<u32>)
    ensures
        r@ == v@,
{
    let mut r: Vec<u32> = Vec::new();
    for i in 0..v.len()
        invariant
            r@ == v@.take(i as int),
    {
        r.push(v[i]);
        assert(v@.take(i + 1) =~= v@.take(i as int).push(v@[i as int]));
    }
    assert(v@.take(v.len() as int) =~= v@);
    r
}

/// Whether two byte vectors hold the same bytes.
pub fn same_bytes(a: &Vec<u8>, b: &Vec<u8>) -> (r: bool)
    ensures
        r == (a@ == b@),
{
    if a.len() != b.len() {
        return false;
    }
    for i in 0..a.len()
        invariant
            a@.len() == b@.len(),
            forall|j: int| 0 <= j < i ==> a@[j] == b@[j],
    {
        if a[i] != b[i] {
            return false;
        }
    }
    assert(a@ =~= b@);
    true
}

/// Whether two word vectors hold the same words.
pub fn same_words(a: &Vec<u32>, b: &Vec<u32>) -> (r: bool)
    ensures
        r == (a@ == b@),
{
    if a.len() != b.len() {
        return false;
    }
    for i in 0..a.len()
        invariant
            a@.len() == b@.len(),
            forall|j: int| 0 <= j < i ==> a@[j] == b@[j],
    {
        if a[i] != b[i] {
            return false;
        }
    }
    assert(a@ =~= b@);
    true
}

impl QuadObject {
    /// A copy with the same model.
    pub fn duplicate(&self) -> (r: QuadObject)
        ensures
            r@ == self@,
    {
        match self {
            QuadObject::Cid(c) => QuadObject::Cid(*c),
            QuadObject::Integer(i) => QuadObject::Integer(*i),
            QuadObject::Float(f) => QuadObject::Float(*f),
            QuadObject::Text(t) => QuadObject::Text(t.clone()),
            QuadObject::Bool(b) => QuadObject::Bool(*b),
            QuadObject::Bytes(b) => QuadObject::Bytes(copy_bytes(b)),
            QuadObject::VectorF32(v) => QuadObject::VectorF32(copy_words(v)),
            QuadObject::TensorCid { cid, shape, dtype } => QuadObject::TensorCid {
                cid: *cid,
                shape: copy_words(shape),
                dtype: *dtype,
            },
            QuadObject::Encrypted { ct_cid, policy_cid } => QuadObject::Encrypted {
                ct_cid: *ct_cid,
                policy_cid: *policy_cid,
            },
        }
    }

    /// Whether two objects have the same model.
    pub fn same_as(&self, other: &QuadObject) -> (r: bool)
        ensures
            r == (self@ == other@),
    {
        match (self, other) {
            (QuadObject::Cid(a), QuadObject::Cid(b)) => a == b,
            (QuadObject::Integer(a), QuadObject::Integer(b)) => *a == *b,
            (QuadObject::Float(a), QuadObject::Float(b)) => *a == *b,
            (QuadObject::Text(a), QuadObject::Text(b)) => *a == *b,
            (QuadObject::Bool(a), QuadObject::Bool(b)) => *a == *b,
            (QuadObject::Bytes(a), QuadObject::Bytes(b)) => same_bytes(a, b),
            (QuadObject::VectorF32(a), QuadObject::VectorF32(b)) => same_words(a, b),
            (
                QuadObject::TensorCid { cid: c1, shape: s1, dtype: d1 },
                QuadObject::TensorCid { cid: c2, shape: s2, dtype: d2 },
            ) => *c1 == *c2 && same_words(s1, s2) && *d1 == *d2,
            (
                QuadObject::Encrypted { ct_cid: a1, policy_cid: p1 },
                QuadObject::Encrypted { ct_cid: a2, policy_cid: p2 },
            ) => *a1 == *a2 && *p1 == *p2,
            _ => false,
        }
    }
}

/// Quad (S, P, O, G): Kotoba's atomic fact.
#[derive(Debug)]
pub struct Quad {
    pub graph: KotobaCid,
    pub subject: KotobaCid,
    pub predicate: String,
    pub object: QuadObject,
}

/// Mathematical model of a quad.
pub struct QuadView {
    pub graph: Seq<u8>,
    pub subject: Seq<u8>,
    pub predicate: Seq<char>,
    pub object: ObjectView,
}

impl View for Quad {
    type V = QuadView;

    open spec fn view(&self) -> QuadView {
        QuadView {
            graph: self.graph.0@,
            subject: self.subject.0@,
            predicate: self.predicate@,
            object: self.object@,
        }
    }
}

/// The SPO sort key of a quad: subject bytes, UTF-8 predicate bytes, then the
/// object's identifier bytes for a CID object (ciphertext identifier for an
/// encrypted object); other objects add nothing.
pub open spec fn spo_key_of(q: QuadView) -> Seq<u8> {
    q.subject + encode_utf8(q.predicate) + match q.object {
        ObjectView::Cid(c) => c,
        ObjectView::Encrypted { ct_cid, .. } => ct_cid,
        _ => Seq::empty(),
    }
}

fn append_slice(key: &mut Vec<u8>, s: &[u8])
    ensures
        final(key)@ == old(key)@ + s@,
{
    let ghost start = key@;
    for i in 0..s.len()
        invariant
            key@ == start + s@.take(i as int),
    {
        key.push(s[i]);
        assert(s@.take(i + 1) =~= s@.take(i as int).push(s@[i as int]));
    }
    assert(s@.take(s@.len() as int) =~= s@);
}

impl Quad {
    /// SPO sort key for the EAVT index.
    pub fn spo_key(&self) -> (key: Vec<u8>)
        ensures
            key@ == spo_key_of(self@),
    {
        let mut key: Vec<u8> = Vec::new();
        append_slice(&mut key, self.subject.0.as_slice());
        append_slice(&mut key, self.predicate.as_str().as_bytes());
        match &self.object {
            QuadObject::Cid(c) => append_slice(&mut key, c.0.as_slice()),
            QuadObject::Encrypted { ct_cid, .. } => append_slice(&mut key, ct_cid.0.as_slice()),
            _ => {
                assert(key@ =~= key@ + Seq::<u8>::empty());
            },
        }
        key
    }

    /// A copy with the same model.
    pub fn duplicate(&self) -> (r: Quad)
        ensures
            r@ == self@,
    {
        Quad {
            graph: self.graph,
            subject: self.subject,
            predicate: self.predicate.clone(),
            object: self.object.duplicate(),
        }
    }
}

} // verus!
