//! The `Debug` texts of identifiers, quad objects, quads and chain contents,
//! written as their derived `Debug` impls write them (`{:?}`, not the
//! alternate form): `Name(field)` for tuple variants, `Name { a: x, b: y }`
//! for struct variants, `[x, y]` for sequences, strings quoted as `str`'s
//! `Debug` quotes them.
use vstd::prelude::*;
use crate::cid::KotobaCid;
use crate::quad::{ObjectView, Quad, QuadObject, QuadView, TensorDtype};
use crate::source_chain::{ChainContent, ContentView, ProgramType};
use crate::sparql::{debug_quoted, debug_str};
use crate::text::{decimal, lemma_decimal_digits, lemma_decimal_injective, push_decimal, push_str_chars};

verus! {

/// The items of a sequence of numbers, separated by `", "`.
pub open spec fn nat_items(ns: Seq<nat>) -> Seq<char>
    decreases ns.len(),
{
    if ns.len() == 0 {
        Seq::empty()
    } else if ns.len() == 1 {
        decimal(ns[0])
    } else {
        nat_items(ns.drop_last()) + ", "@ + decimal(ns.last())
    }
}

/// A sequence of numbers as `Debug` writes it: `[1, 2, 3]`.
pub open spec fn nat_list(ns: Seq<nat>) -> Seq<char> {
    "["@ + nat_items(ns) + "]"@
}

/// Bytes as numbers.
pub open spec fn byte_nats(b: Seq<u8>) -> Seq<nat> {
    b.map_values(|x: u8| x as nat)
}

/// Words as numbers.
pub open spec fn word_nats(w: Seq<u32>) -> Seq<nat> {
    w.map_values(|x: u32| x as nat)
}

/// The items of a sequence of strings, each quoted, separated by `", "`.
pub open spec fn str_items(ss: Seq<Seq<char>>) -> Seq<char>
    decreases ss.len(),
{
    if ss.len() == 0 {
        Seq::empty()
    } else if ss.len() == 1 {
        debug_str(ss[0])
    } else {
        str_items(ss.drop_last()) + ", "@ + debug_str(ss.last())
    }
}

/// A signed integer in decimal.
pub open spec fn int_text(i: i64) -> Seq<char> {
    if i < 0 {
        "-"@ + decimal((-(i as int)) as nat)
    } else {
        decimal(i as nat)
    }
}

/// A boolean as `true` or `false`.
pub open spec fn bool_text(b: bool) -> Seq<char> {
    if b {
        "true"@
    } else {
        "false"@
    }
}

/// An identifier: `KotobaCid([..36 bytes..])`.
pub open spec fn cid_debug(b: Seq<u8>) -> Seq<char> {
    "KotobaCid("@ + nat_list(byte_nats(b)) + ")"@
}

/// An optional identifier: `Some(KotobaCid(..))` or `None`.
pub open spec fn opt_cid_debug(c: Option<Seq<u8>>) -> Seq<char> {
    match c {
        Some(b) => "Some("@ + cid_debug(b) + ")"@,
        None => "None"@,
    }
}

/// A list of numbers' items is empty exactly when the list is, and no
/// items text is that of two different lists: a number's digits hold no
/// `','` or `' '`, so the last separator tells where the last item starts.
pub proof fn lemma_nat_items_injective(a: Seq<nat>, b: Seq<nat>)
    requires
        nat_items(a) == nat_items(b),
    ensures
        a == b,
    decreases a.len() + b.len(),
{
    reveal_strlit(", ");
    let x = nat_items(a);
    if a.len() >= 1 {
        lemma_decimal_digits(a.last());
    }
    if b.len() >= 1 {
        lemma_decimal_digits(b.last());
    }
    if a.len() == 0 || b.len() == 0 {
        if a.len() == 1 {
            assert(nat_items(a) == decimal(a.last()));
        } else if a.len() >= 2 {
            assert(nat_items(a).len() >= 2);
        }
        if b.len() == 1 {
            assert(nat_items(b) == decimal(b.last()));
        } else if b.len() >= 2 {
            assert(nat_items(b).len() >= 2);
        }
        assert(a.len() == 0 && b.len() == 0);
        assert(a =~= b);
    } else if a.len() == 1 && b.len() == 1 {
        lemma_decimal_injective(a[0], b[0]);
        assert(a =~= b);
    } else if a.len() == 1 {
        let k = nat_items(b.drop_last()).len();
        assert(nat_items(b)[k as int] == ',');
        assert(x[k as int] == decimal(a[0])[k as int]);
    } else if b.len() == 1 {
        let k = nat_items(a.drop_last()).len();
        assert(x[k as int] == ',');
        assert(nat_items(b)[k as int] == decimal(b[0])[k as int]);
    } else {
        let pa = nat_items(a.drop_last());
        let pb = nat_items(b.drop_last());
        let da = decimal(a.last());
        let db = decimal(b.last());
        assert(x =~= pa + ", "@ + da);
        assert(x =~= pb + ", "@ + db);
        if da.len() < db.len() {
            let k = x.len() - da.len() - 1;
            assert(x[k] == ' ');
            assert(x[k] == db[k - pb.len() - 2]);
        } else if db.len() < da.len() {
            let k = x.len() - db.len() - 1;
            assert(x[k] == ' ');
            assert(x[k] == da[k - pa.len() - 2]);
        }
        assert(da =~= x.skip(x.len() - da.len()));
        assert(db =~= x.skip(x.len() - db.len()));
        assert(pa =~= x.take(pa.len() as int));
        assert(pb =~= x.take(pb.len() as int));
        lemma_decimal_injective(a.last(), b.last());
        lemma_nat_items_injective(a.drop_last(), b.drop_last());
        assert(a =~= a.drop_last().push(a.last()));
        assert(b =~= b.drop_last().push(b.last()));
    }
}

/// Different optional identifiers have different `Debug` texts.
pub proof fn lemma_opt_cid_debug_injective(a: Option<Seq<u8>>, b: Option<Seq<u8>>)
    requires
        opt_cid_debug(a) == opt_cid_debug(b),
    ensures
        a == b,
{
    reveal_strlit("None");
    reveal_strlit("Some(");
    reveal_strlit("KotobaCid(");
    reveal_strlit("[");
    reveal_strlit("]");
    reveal_strlit(")");
    let t = opt_cid_debug(a);
    match (a, b) {
        (None, None) => {},
        (Some(x), None) => {
            assert(t[0] == 'S');
            assert(opt_cid_debug(b)[0] == 'N');
        },
        (None, Some(y)) => {
            assert(t[0] == 'N');
            assert(opt_cid_debug(b)[0] == 'S');
        },
        (Some(x), Some(y)) => {
            let ix = nat_items(byte_nats(x));
            let iy = nat_items(byte_nats(y));
            let head = "Some("@ + "KotobaCid("@ + "["@;
            let tail = "]"@ + ")"@ + ")"@;
            assert(t =~= head + ix + tail);
            assert(opt_cid_debug(b) =~= head + iy + tail);
            assert(ix =~= t.subrange(16, t.len() - 3));
            assert(iy =~= t.subrange(16, t.len() - 3));
            lemma_nat_items_injective(byte_nats(x), byte_nats(y));
            assert(x.len() == byte_nats(x).len());
            assert forall|i: int| 0 <= i < x.len() implies x[i] == y[i] by {
                assert(byte_nats(x)[i] == x[i] as nat);
                assert(byte_nats(y)[i] == y[i] as nat);
            }
            assert(x =~= y);
        },
    }
}

/// A tensor element type by its variant name.
pub open spec fn dtype_debug(d: TensorDtype) -> Seq<char> {
    match d {
        TensorDtype::F32 => "F32"@,
        TensorDtype::F16 => "F16"@,
        TensorDtype::BF16 => "BF16"@,
        TensorDtype::F8E4M3 => "F8E4M3"@,
        TensorDtype::F8E5M2 => "F8E5M2"@,
    }
}

/// The `Debug` text of a quad object. A float is held as its bit pattern,
/// and that number is what is written.
pub open spec fn debug_object(o: ObjectView) -> Seq<char> {
    match o {
        ObjectView::Cid(c) => "Cid("@ + cid_debug(c) + ")"@,
        ObjectView::Integer(i) => "Integer("@ + int_text(i) + ")"@,
        ObjectView::Float(f) => "Float("@ + decimal(f as nat) + ")"@,
        ObjectView::Text(t) => "Text("@ + debug_str(t) + ")"@,
        ObjectView::Bool(b) => "Bool("@ + bool_text(b) + ")"@,
        ObjectView::Bytes(b) => "Bytes("@ + nat_list(byte_nats(b)) + ")"@,
        ObjectView::VectorF32(v) => "VectorF32("@ + nat_list(word_nats(v)) + ")"@,
        ObjectView::TensorCid { cid, shape, dtype } => "TensorCid { cid: "@ + cid_debug(cid) + ", shape: "@
            + nat_list(word_nats(shape)) + ", dtype: "@ + dtype_debug(dtype) + " }"@,
        ObjectView::Encrypted { ct_cid, policy_cid } => "Encrypted { ct_cid: "@ + cid_debug(ct_cid)
            + ", policy_cid: "@ + cid_debug(policy_cid) + " }"@,
    }
}

/// The `Debug` text of a quad.
pub open spec fn debug_quad(q: QuadView) -> Seq<char> {
    "Quad { graph: "@ + cid_debug(q.graph) + ", subject: "@ + cid_debug(q.subject) + ", predicate: "@
        + debug_str(q.predicate) + ", object: "@ + debug_object(q.object) + " }"@
}

/// A program type by its variant name.
pub open spec fn program_type_debug(t: ProgramType) -> Seq<char> {
    match t {
        ProgramType::Datalog => "Datalog"@,
        ProgramType::WasmNode => "WasmNode"@,
        ProgramType::WasmUdf => "WasmUdf"@,
    }
}

/// The `Debug` text of a chain entry's content.
pub open spec fn debug_content(c: ContentView) -> Seq<char> {
    match c {
        ContentView::Quad(q) => "Quad("@ + debug_quad(q) + ")"@,
        ContentView::Commit { graph_cid, prolly_root } => "Commit { graph_cid: "@ + cid_debug(graph_cid)
            + ", prolly_root: "@ + cid_debug(prolly_root) + " }"@,
        ContentView::Invoke { program_cid, program_type, input_topics, max_steps, call_id } =>
            "Invoke { program_cid: "@ + cid_debug(program_cid) + ", program_type: "@ + program_type_debug(
            program_type,
        ) + ", input_topics: ["@ + str_items(input_topics) + "], max_steps: "@ + decimal(max_steps as nat)
            + ", call_id: "@ + decimal(call_id as nat) + " }"@,
        ContentView::Result { call_id, status, steps_used } => "Result { call_id: "@ + decimal(
            call_id as nat,
        ) + ", status: "@ + decimal(status as nat) + ", steps_used: "@ + decimal(steps_used as nat) + " }"@,
        ContentView::Warrant { accused, evidence, rule_id } => "Warrant { accused: "@ + nat_list(
            byte_nats(accused),
        ) + ", evidence: "@ + cid_debug(evidence) + ", rule_id: "@ + decimal(rule_id as nat) + " }"@,
        ContentView::Infer { model_cid, adapter_cid, session_cid, max_tokens, call_id } =>
            "Infer { model_cid: "@ + cid_debug(model_cid) + ", adapter_cid: "@ + opt_cid_debug(adapter_cid)
            + ", session_cid: "@ + opt_cid_debug(session_cid) + ", max_tokens: "@ + decimal(
            max_tokens as nat,
        ) + ", call_id: "@ + decimal(call_id as nat) + " }"@,
    }
}

/// Appends the items of a byte list.
fn push_byte_items(out: &mut Vec<char>, b: &[u8])
    ensures
        final(out)@ == old(out)@ + nat_items(byte_nats(b@)),
{
    let ghost start = out@;
    for i in 0..b.len()
        invariant
            out@ == start + nat_items(byte_nats(b@.take(i as int))),
    {
        let ghost before = out@;
        if i > 0 {
            push_str_chars(out, ", ");
        }
        push_decimal(out, b[i] as u64);
        proof {
            let ns = byte_nats(b@.take(i + 1));
            assert(ns.drop_last() =~= byte_nats(b@.take(i as int)));
            assert(ns.last() == b@[i as int] as nat);
            if i == 0 {
                assert(byte_nats(b@.take(0)) =~= Seq::<nat>::empty());
            }
            assert(out@ =~= start + nat_items(ns));
        }
    }
    assert(b@.take(b@.len() as int) =~= b@);
}

/// Appends the items of a word list.
fn push_word_items(out: &mut Vec<char>, w: &[u32])
    ensures
        final(out)@ == old(out)@ + nat_items(word_nats(w@)),
{
    let ghost start = out@;
    for i in 0..w.len()
        invariant
            out@ == start + nat_items(word_nats(w@.take(i as int))),
    {
        if i > 0 {
            push_str_chars(out, ", ");
        }
        push_decimal(out, w[i] as u64);
        proof {
            let ns = word_nats(w@.take(i + 1));
            assert(ns.drop_last() =~= word_nats(w@.take(i as int)));
            assert(ns.last() == w@[i as int] as nat);
            if i == 0 {
                assert(word_nats(w@.take(0)) =~= Seq::<nat>::empty());
            }
            assert(out@ =~= start + nat_items(ns));
        }
    }
    assert(w@.take(w@.len() as int) =~= w@);
}

/// Appends the `Debug` text of a string.
fn push_str_debug(out: &mut Vec<char>, s: &str)
    ensures
        final(out)@ == old(out)@ + debug_str(s@),
{
    let q = debug_quoted(s);
    push_str_chars(out, q.as_str());
}

/// Appends the `Debug` text of an identifier.
pub fn push_cid_debug(out: &mut Vec<char>, c: &KotobaCid)
    ensures
        final(out)@ == old(out)@ + cid_debug(c.0@),
{
    let ghost start = out@;
    push_str_chars(out, "KotobaCid(");
    push_str_chars(out, "[");
    push_byte_items(out, &c.0);
    push_str_chars(out, "]");
    push_str_chars(out, ")");
    assert(out@ =~= start + cid_debug(c.0@));
}

/// Appends the `Debug` text of an optional identifier.
pub fn push_opt_cid_debug(out: &mut Vec<char>, c: &Option<KotobaCid>)
    ensures
        final(out)@ == old(out)@ + opt_cid_debug(match c {
            Some(x) => Some(x.0@),
            None => None,
        }),
{
    let ghost start = out@;
    match c {
        Some(x) => {
            push_str_chars(out, "Some(");
            push_cid_debug(out, x);
            push_str_chars(out, ")");
            assert(out@ =~= start + opt_cid_debug(Some(x.0@)));
        },
        None => {
            push_str_chars(out, "None");
        },
    }
}

fn push_int(out: &mut Vec<char>, i: i64)
    ensures
        final(out)@ == old(out)@ + int_text(i),
{
    let ghost start = out@;
    if i < 0 {
        push_str_chars(out, "-");
        let m: u64 = (0i128 - i as i128) as u64;
        push_decimal(out, m);
        assert(out@ =~= start + int_text(i));
    } else {
        push_decimal(out, i as u64);
    }
}

fn push_dtype(out: &mut Vec<char>, d: TensorDtype)
    ensures
        final(out)@ == old(out)@ + dtype_debug(d),
{
    match d {
        TensorDtype::F32 => push_str_chars(out, "F32"),
        TensorDtype::F16 => push_str_chars(out, "F16"),
        TensorDtype::BF16 => push_str_chars(out, "BF16"),
        TensorDtype::F8E4M3 => push_str_chars(out, "F8E4M3"),
        TensorDtype::F8E5M2 => push_str_chars(out, "F8E5M2"),
    }
}

/// Appends the `Debug` text of a quad object.
pub fn push_object_debug(out: &mut Vec<char>, o: &QuadObject)
    ensures
        final(out)@ == old(out)@ + debug_object(o@),
{
    let ghost start = out@;
    match o {
        QuadObject::Cid(c) => {
            push_str_chars(out, "Cid(");
            push_cid_debug(out, c);
            push_str_chars(out, ")");
        },
        QuadObject::Integer(i) => {
            push_str_chars(out, "Integer(");
            push_int(out, *i);
            push_str_chars(out, ")");
        },
        QuadObject::Float(f) => {
            push_str_chars(out, "Float(");
            push_decimal(out, *f);
            push_str_chars(out, ")");
        },
        QuadObject::Text(t) => {
            push_str_chars(out, "Text(");
            push_str_debug(out, t.as_str());
            push_str_chars(out, ")");
        },
        QuadObject::Bool(b) => {
            push_str_chars(out, "Bool(");
            if *b {
                push_str_chars(out, "true");
            } else {
                push_str_chars(out, "false");
            }
            push_str_chars(out, ")");
        },
        QuadObject::Bytes(b) => {
            push_str_chars(out, "Bytes(");
            push_str_chars(out, "[");
            push_byte_items(out, b.as_slice());
            push_str_chars(out, "]");
            push_str_chars(out, ")");
        },
        QuadObject::VectorF32(v) => {
            push_str_chars(out, "VectorF32(");
            push_str_chars(out, "[");
            push_word_items(out, v.as_slice());
            push_str_chars(out, "]");
            push_str_chars(out, ")");
        },
        QuadObject::TensorCid { cid, shape, dtype } => {
            push_str_chars(out, "TensorCid { cid: ");
            push_cid_debug(out, cid);
            push_str_chars(out, ", shape: ");
            push_str_chars(out, "[");
            push_word_items(out, shape.as_slice());
            push_str_chars(out, "]");
            push_str_chars(out, ", dtype: ");
            push_dtype(out, *dtype);
            push_str_chars(out, " }");
        },
        QuadObject::Encrypted { ct_cid, policy_cid } => {
            push_str_chars(out, "Encrypted { ct_cid: ");
            push_cid_debug(out, ct_cid);
            push_str_chars(out, ", policy_cid: ");
            push_cid_debug(out, policy_cid);
            push_str_chars(out, " }");
        },
    }
    assert(out@ =~= start + debug_object(o@));
}

/// Appends the `Debug` text of a quad.
pub fn push_quad_debug(out: &mut Vec<char>, q: &Quad)
    ensures
        final(out)@ == old(out)@ + debug_quad(q@),
{
    let ghost start = out@;
    push_str_chars(out, "Quad { graph: ");
    push_cid_debug(out, &q.graph);
    push_str_chars(out, ", subject: ");
    push_cid_debug(out, &q.subject);
    push_str_chars(out, ", predicate: ");
    push_str_debug(out, q.predicate.as_str());
    push_str_chars(out, ", object: ");
    push_object_debug(out, &q.object);
    push_str_chars(out, " }");
    assert(out@ =~= start + debug_quad(q@));
}

fn push_str_items(out: &mut Vec<char>, ss: &Vec<String>)
    ensures
        final(out)@ == old(out)@ + str_items(Seq::new(ss@.len(), |i: int| ss@[i]@)),
{
    let ghost start = out@;
    let ghost all = Seq::new(ss@.len(), |i: int| ss@[i]@);
    for i in 0..ss.len()
        invariant
            all == Seq::new(ss@.len(), |i: int| ss@[i]@),
            out@ == start + str_items(all.take(i as int)),
    {
        if i > 0 {
            push_str_chars(out, ", ");
        }
        push_str_debug(out, ss[i].as_str());
        proof {
            let t = all.take(i + 1);
            assert(t.drop_last() =~= all.take(i as int));
            assert(t.last() == ss@[i as int]@);
            if i == 0 {
                assert(all.take(0) =~= Seq::<Seq<char>>::empty());
            }
            assert(out@ =~= start + str_items(t));
        }
    }
    assert(all.take(ss@.len() as int) =~= all);
}

fn push_program_type(out: &mut Vec<char>, t: ProgramType)
    ensures
        final(out)@ == old(out)@ + program_type_debug(t),
{
    match t {
        ProgramType::Datalog => push_str_chars(out, "Datalog"),
        ProgramType::WasmNode => push_str_chars(out, "WasmNode"),
        ProgramType::WasmUdf => push_str_chars(out, "WasmUdf"),
    }
}

fn push_invoke_debug(
    out: &mut Vec<char>,
    program_cid: &KotobaCid,
    program_type: ProgramType,
    input_topics: &Vec<String>,
    max_steps: u32,
    call_id: u64,
)
    ensures
        final(out)@ == old(out)@ + debug_content(
            ContentView::Invoke {
                program_cid: program_cid.0@,
                program_type,
                input_topics: Seq::new(input_topics@.len(), |i: int| input_topics@[i]@),
                max_steps,
                call_id,
            },
        ),
{
    let ghost start = out@;
    push_str_chars(out, "Invoke { program_cid: ");
    push_cid_debug(out, program_cid);
    push_str_chars(out, ", program_type: ");
    push_program_type(out, program_type);
    push_str_chars(out, ", input_topics: [");
    push_str_items(out, input_topics);
    push_str_chars(out, "], max_steps: ");
    push_decimal(out, max_steps as u64);
    push_str_chars(out, ", call_id: ");
    push_decimal(out, call_id);
    push_str_chars(out, " }");
    assert(out@ =~= start + debug_content(
        ContentView::Invoke {
            program_cid: program_cid.0@,
            program_type,
            input_topics: Seq::new(input_topics@.len(), |i: int| input_topics@[i]@),
            max_steps,
            call_id,
        },
    ));
}

fn push_infer_debug(
    out: &mut Vec<char>,
    model_cid: &KotobaCid,
    adapter_cid: &Option<KotobaCid>,
    session_cid: &Option<KotobaCid>,
    max_tokens: u32,
    call_id: u64,
)
    ensures
        final(out)@ == old(out)@ + debug_content(
            ContentView::Infer {
                model_cid: model_cid.0@,
                adapter_cid: match adapter_cid {
                    Some(x) => Some(x.0@),
                    None => None,
                },
                session_cid: match session_cid {
                    Some(x) => Some(x.0@),
                    None => None,
                },
                max_tokens,
                call_id,
            },
        ),
{
    let ghost start = out@;
    push_str_chars(out, "Infer { model_cid: ");
    push_cid_debug(out, model_cid);
    push_str_chars(out, ", adapter_cid: ");
    push_opt_cid_debug(out, adapter_cid);
    push_str_chars(out, ", session_cid: ");
    push_opt_cid_debug(out, session_cid);
    push_str_chars(out, ", max_tokens: ");
    push_decimal(out, max_tokens as u64);
    push_str_chars(out, ", call_id: ");
    push_decimal(out, call_id);
    push_str_chars(out, " }");
    let ghost a = match adapter_cid {
        Some(x) => Some(x.0@),
        None => None,
    };
    let ghost sc = match session_cid {
        Some(x) => Some(x.0@),
        None => None,
    };
    assert(out@ =~= start + debug_content(
        ContentView::Infer { model_cid: model_cid.0@, adapter_cid: a, session_cid: sc, max_tokens, call_id },
    ));
}

fn push_small_content_debug(out: &mut Vec<char>, c: &ChainContent)
    requires
        !(c is Invoke || c is Infer),
    ensures
        final(out)@ == old(out)@ + debug_content(c@),
{
    let ghost start = out@;
    match c {
        ChainContent::Quad(q) => {
            push_str_chars(out, "Quad(");
            push_quad_debug(out, q);
            push_str_chars(out, ")");
            assert(out@ =~= start + debug_content(c@));
        },
        ChainContent::Commit { graph_cid, prolly_root } => {
            push_str_chars(out, "Commit { graph_cid: ");
            push_cid_debug(out, graph_cid);
            push_str_chars(out, ", prolly_root: ");
            push_cid_debug(out, prolly_root);
            push_str_chars(out, " }");
            assert(out@ =~= start + debug_content(c@));
        },
        ChainContent::Result { call_id, status, steps_used } => {
            push_str_chars(out, "Result { call_id: ");
            push_decimal(out, *call_id);
            push_str_chars(out, ", status: ");
            push_decimal(out, *status as u64);
            push_str_chars(out, ", steps_used: ");
            push_decimal(out, *steps_used as u64);
            push_str_chars(out, " }");
            assert(out@ =~= start + debug_content(c@));
        },
        ChainContent::Warrant { accused, evidence, rule_id } => {
            push_str_chars(out, "Warrant { accused: ");
            push_str_chars(out, "[");
            push_byte_items(out, accused.as_slice());
            push_str_chars(out, "]");
            push_str_chars(out, ", evidence: ");
            push_cid_debug(out, evidence);
            push_str_chars(out, ", rule_id: ");
            push_decimal(out, *rule_id as u64);
            push_str_chars(out, " }");
            assert(out@ =~= start + debug_content(c@));
        },
        _ => {},
    }
}

/// Appends the `Debug` text of a chain entry's content.
pub fn push_content_debug(out: &mut Vec<char>, c: &ChainContent)
    ensures
        final(out)@ == old(out)@ + debug_content(c@),
{
    match c {
        ChainContent::Invoke { program_cid, program_type, input_topics, max_steps, call_id } => {
            push_invoke_debug(out, program_cid, *program_type, input_topics, *max_steps, *call_id);
        },
        ChainContent::Infer { model_cid, adapter_cid, session_cid, max_tokens, call_id } => {
            push_infer_debug(out, model_cid, adapter_cid, session_cid, *max_tokens, *call_id);
        },
        _ => push_small_content_debug(out, c),
    }
}

} // verus!
