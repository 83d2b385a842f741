//! Model weights and embeddings as quads: weight tensors referenced by blob
//! identifier, embeddings inline or as a blob reference when large.
use vstd::prelude::*;
use crate::cid::{cid_bytes_of, multibase_of, KotobaCid};
use crate::datom::{Datom, DatomView, Delta, DeltaView};
use crate::kse::Vault;
use crate::quad::{copy_words, ObjectView, Quad, QuadObject, QuadView, TensorDtype};
use crate::text::{decimal, push_decimal, push_str_chars, string_from_chars};

verus! {

/// A model weight tensor, stored as `(model, weight/layer/<n>, blob)`.
#[derive(Debug)]
pub struct WeightRef {
    pub model_cid: KotobaCid,
    pub layer: u32,
    pub blob_cid: KotobaCid,
    pub shape: Vec<u32>,
    pub dtype: TensorDtype,
}

impl WeightRef {
    /// The quad recording this weight in a graph.
    pub fn to_quad(&self, graph_cid: KotobaCid) -> (q: Quad)
        ensures
            q@ == (QuadView {
                graph: graph_cid.0@,
                subject: self.model_cid.0@,
                predicate: "weight/layer/"@ + decimal(self.layer as nat),
                object: ObjectView::TensorCid { cid: self.blob_cid.0@, shape: self.shape@, dtype: self.dtype },
            }),
    {
        let mut p: Vec<char> = Vec::new();
        push_str_chars(&mut p, "weight/layer/");
        push_decimal(&mut p, self.layer as u64);
        let predicate = string_from_chars(&p);
        assert(predicate@ =~= "weight/layer/"@ + decimal(self.layer as nat));
        Quad {
            graph: graph_cid,
            subject: self.model_cid,
            predicate,
            object: QuadObject::TensorCid { cid: self.blob_cid, shape: copy_words(&self.shape), dtype: self.dtype },
        }
    }
}

/// Raw tensor bytes kept in a vault.
#[derive(Debug)]
pub struct WeightBlob {
    pub blob_cid: KotobaCid,
    pub bytes: Vec<u8>,
    pub shape: Vec<u32>,
    pub dtype: TensorDtype,
}

impl WeightBlob {
    /// Puts the bytes into the vault and describes the stored blob.
    pub fn store(vault: &mut Vault, bytes: Vec<u8>, shape: Vec<u32>, dtype: TensorDtype) -> (b: WeightBlob)
        ensures
            b.blob_cid.0@ == cid_bytes_of(bytes@),
            b.bytes == bytes,
            b.shape == shape,
            b.dtype == dtype,
            final(vault)@ == old(vault)@.insert(multibase_of(cid_bytes_of(bytes@)), bytes@),
    {
        let blob_ref = vault.put(bytes.clone());
        WeightBlob { blob_cid: blob_ref.cid, bytes, shape, dtype }
    }
}

/// An embedding of a document by a model. Each element is the bit pattern
/// of an `f32` (`f32::to_bits`).
#[derive(Debug)]
pub struct Embedding {
    pub doc_cid: KotobaCid,
    pub model_cid: KotobaCid,
    pub vector: Vec<u32>,
}

/// Largest embedding kept inline in its datom.
pub const MAX_INLINE_DIM: usize = 1024;

/// Little-endian bytes of 32-bit words, one after another.
pub open spec fn le_bytes(ws: Seq<u32>) -> Seq<u8>
    decreases ws.len(),
{
    if ws.len() == 0 {
        Seq::empty()
    } else {
        let w = ws.last();
        le_bytes(ws.drop_last()) + seq![
            (w % 256) as u8,
            ((w / 256) % 256) as u8,
            ((w / 65536) % 256) as u8,
            (w / 16777216) as u8,
        ]
    }
}

proof fn lemma_byte_cast(v: u32)
    requires
        v < 256,
    ensures
        (v as u8) as int == v as int,
{
}

/// The blob of an embedding's words holds four bytes per word, in vector
/// order: bytes `4i .. 4i+4` are word `i`, least significant first, so that
/// they add back up to the word.
pub proof fn lemma_le_bytes_layout(ws: Seq<u32>)
    ensures
        le_bytes(ws).len() == 4 * ws.len(),
        forall|i: int|
            0 <= i < ws.len() ==> {
                &&& #[trigger] le_bytes(ws)[4 * i] as int == ws[i] as int % 256
                &&& le_bytes(ws)[4 * i + 1] as int == (ws[i] as int / 256) % 256
                &&& le_bytes(ws)[4 * i + 2] as int == (ws[i] as int / 65536) % 256
                &&& le_bytes(ws)[4 * i + 3] as int == ws[i] as int / 16777216
                &&& le_bytes(ws)[4 * i] + 256 * le_bytes(ws)[4 * i + 1] + 65536 * le_bytes(ws)[4 * i + 2]
                    + 16777216 * le_bytes(ws)[4 * i + 3] == ws[i] as int
            },
    decreases ws.len(),
{
    if ws.len() > 0 {
        let prev = ws.drop_last();
        lemma_le_bytes_layout(prev);
        let b = le_bytes(ws);
        let n = prev.len() as int;
        assert forall|i: int| 0 <= i < ws.len() implies {
            &&& #[trigger] b[4 * i] as int == ws[i] as int % 256
            &&& b[4 * i + 1] as int == (ws[i] as int / 256) % 256
            &&& b[4 * i + 2] as int == (ws[i] as int / 65536) % 256
            &&& b[4 * i + 3] as int == ws[i] as int / 16777216
            &&& b[4 * i] + 256 * b[4 * i + 1] + 65536 * b[4 * i + 2] + 16777216 * b[4 * i + 3] == ws[i] as int
        } by {
            let w = ws[i] as int;
            if i < n {
                assert(ws[i] == prev[i]);
                assert(b[4 * i] == le_bytes(prev)[4 * i]);
                assert(b[4 * i + 1] == le_bytes(prev)[4 * i + 1]);
                assert(b[4 * i + 2] == le_bytes(prev)[4 * i + 2]);
                assert(b[4 * i + 3] == le_bytes(prev)[4 * i + 3]);
            } else {
                assert(i == n);
                let x = ws.last();
                assert(x as int == w);
                assert(b == le_bytes(prev) + seq![
                    (x % 256) as u8,
                    ((x / 256) % 256) as u8,
                    ((x / 65536) % 256) as u8,
                    (x / 16777216) as u8,
                ]);
                lemma_byte_cast(x % 256);
                lemma_byte_cast((x / 256) % 256);
                lemma_byte_cast((x / 65536) % 256);
                lemma_byte_cast(x / 16777216);
                assert(b[4 * i] == (x % 256) as u8);
                assert(b[4 * i + 1] == ((x / 256) % 256) as u8);
                assert(b[4 * i + 2] == ((x / 65536) % 256) as u8);
                assert(b[4 * i + 3] == (x / 16777216) as u8);
                assert(0 <= w < 0x1_0000_0000);
                assert(w / 16777216 < 256) by (nonlinear_arith)
                    requires
                        0 <= w < 0x1_0000_0000,
                ;
                assert(w % 256 + 256 * ((w / 256) % 256) + 65536 * ((w / 65536) % 256) + 16777216 * (w
                    / 16777216) == w) by (nonlinear_arith)
                    requires
                        0 <= w,
                ;
            }
        }
    }
}

/// The value an embedding is stored as: the vector inline up to
/// `MAX_INLINE_DIM` elements, else a reference to the blob of its
/// little-endian bytes with shape `[len]` and element type `F32`.
pub open spec fn embedding_value(v: Seq<u32>) -> ObjectView {
    if v.len() <= MAX_INLINE_DIM {
        ObjectView::VectorF32(v)
    } else {
        ObjectView::TensorCid {
            cid: cid_bytes_of(le_bytes(v)),
            shape: seq![v.len() as u32],
            dtype: TensorDtype::F32,
        }
    }
}

fn le_bytes_of(ws: &Vec<u32>) -> (b: Vec<u8>)
    ensures
        b@ == le_bytes(ws@),
{
    let mut b: Vec<u8> = Vec::new();
    for i in 0..ws.len()
        invariant
            b@ == le_bytes(ws@.take(i as int)),
    {
        let w = ws[i];
        b.push((w % 256) as u8);
        b.push(((w / 256) % 256) as u8);
        b.push(((w / 65536) % 256) as u8);
        b.push((w / 16777216) as u8);
        assert(ws@.take(i + 1).drop_last() =~= ws@.take(i as int));
        assert(b@ =~= le_bytes(ws@.take(i + 1)));
    }
    assert(ws@.take(ws@.len() as int) =~= ws@);
    b
}

/// The delta asserting an embedding: entity the document, attribute
/// `embedding/<model multibase>`, the embedding's value, in the graph.
pub fn embed_to_quad(emb: &Embedding, graph_cid: KotobaCid) -> (d: Delta)
    ensures
        d@ == (DeltaView {
            datom: DatomView {
                e: emb.doc_cid.0@,
                a: "embedding/"@ + multibase_of(emb.model_cid.0@),
                v: embedding_value(emb.vector@),
                tx: graph_cid.0@,
            },
            added: true,
        }),
{
    let value = if emb.vector.len() <= MAX_INLINE_DIM {
        QuadObject::VectorF32(copy_words(&emb.vector))
    } else {
        let bytes = le_bytes_of(&emb.vector);
        let cid = KotobaCid::from_bytes(bytes.as_slice());
        #[verifier::truncate]
        let n = emb.vector.len() as u32;
        let shape: Vec<u32> = vec![n];
        assert(shape@ =~= seq![emb.vector@.len() as u32]);
        QuadObject::TensorCid { cid, shape, dtype: TensorDtype::F32 }
    };
    let mut a: Vec<char> = Vec::new();
    push_str_chars(&mut a, "embedding/");
    push_str_chars(&mut a, emb.model_cid.to_multibase().as_str());
    let attr = string_from_chars(&a);
    assert(attr@ =~= "embedding/"@ + multibase_of(emb.model_cid.0@));
    Delta::assert_datom(Datom::new(emb.doc_cid, attr, value, graph_cid))
}

} // verus!
