//! The Kotoba VM: bounded Datalog execution of an invocation, and the
//! decisions of the invocation router.
use vstd::prelude::*;
use crate::cid::KotobaCid;
use crate::datalog::{evaluate, DatalogProgram};
use crate::datom::{deltas_view, Arrangement, Delta, DeltaView};
use crate::runtime::{runtime_error_text, InvokeResult, RuntimeError};
use crate::text::{push_str_chars, string_from_chars};

verus! {

/// How an execution ended.
#[derive(Debug, Clone, Copy, PartialEq, Eq, Structural)]
pub enum ExecStatus {
    /// Every rule was applied.
    Completed,
    Halt,
    StepsExceeded,
    Failed,
}

/// Result of executing a program.
#[derive(Debug)]
pub struct ExecResult {
    pub call_id: u64,
    pub status: ExecStatus,
    pub out_deltas: Vec<Delta>,
    pub steps_used: u32,
}

/// `k` copies of `s`, one after another.
pub open spec fn repeated(s: Seq<DeltaView>, k: nat) -> Seq<DeltaView>
    decreases k,
{
    if k == 0 {
        Seq::empty()
    } else {
        repeated(s, (k - 1) as nat) + s
    }
}

/// The Kotoba VM.
#[derive(Debug)]
pub struct KotobaVm;

impl KotobaVm {
    /// Executes a Datalog program on an invocation's input deltas, one step
    /// per rule: each step evaluates the program on the inputs and appends
    /// what it derives. When the rules outnumber `max_steps`, execution stops
    /// after `max_steps` steps with `StepsExceeded`.
    pub fn execute(
        program_cid: &KotobaCid,
        program: &DatalogProgram,
        input: &Arrangement,
        input_deltas: &[Delta],
        max_steps: u32,
        call_id: u64,
    ) -> (r: ExecResult)
        ensures
            r.call_id == call_id,
            program@.len() <= max_steps ==> r.status == ExecStatus::Completed && r.steps_used
                == program@.len(),
            program@.len() > max_steps ==> r.status == ExecStatus::StepsExceeded && r.steps_used
                == max_steps,
            deltas_view(r.out_deltas@) == repeated(
                evaluate(program@, deltas_view(input_deltas@)),
                r.steps_used as nat,
            ),
    {
        let ghost once = evaluate(program@, deltas_view(input_deltas@));
        let mut steps: u32 = 0;
        let mut out_deltas: Vec<Delta> = Vec::new();
        let n = program.rules.len();
        let mut k: usize = 0;
        while k < n
            invariant
                n == program@.len(),
                k <= n,
                steps == k,
                k <= max_steps,
                once == evaluate(program@, deltas_view(input_deltas@)),
                deltas_view(out_deltas@) == repeated(once, steps as nat),
            decreases n - k,
        {
            if steps >= max_steps {
                return ExecResult {
                    call_id,
                    status: ExecStatus::StepsExceeded,
                    out_deltas,
                    steps_used: steps,
                };
            }
            let mut derived = program.evaluate_delta(input_deltas);
            let ghost before = out_deltas@;
            out_deltas.append(&mut derived);
            assert(deltas_view(out_deltas@) =~= deltas_view(before) + once);
            steps += 1;
            k += 1;
        }
        ExecResult { call_id, status: ExecStatus::Completed, out_deltas, steps_used: steps }
    }
}

/// Why a dispatch failed.
#[derive(Debug)]
pub enum RouterError {
    Wasm(RuntimeError),
    MissingWasmBytes,
    StepsExceeded,
    DatalogError,
}

impl RouterError {
    /// Human-readable description.
    pub fn message(&self) -> (s: String)
        ensures
            self matches RouterError::Wasm(e) ==> s@ == "wasm execution failed: "@ + runtime_error_text(*e),
            self is MissingWasmBytes ==> s@ == "program bytes not provided for wasm program_type"@,
            self is StepsExceeded ==> s@ == "datalog execution exceeded step limit"@,
            self is DatalogError ==> s@ == "datalog execution error"@,
    {
        match self {
            RouterError::Wasm(e) => {
                let mut out: Vec<char> = Vec::new();
                push_str_chars(&mut out, "wasm execution failed: ");
                let m = e.message();
                push_str_chars(&mut out, m.as_str());
                let s = string_from_chars(&out);
                assert(s@ =~= "wasm execution failed: "@ + m@);
                s
            },
            RouterError::MissingWasmBytes => String::from_str("program bytes not provided for wasm program_type"),
            RouterError::StepsExceeded => String::from_str("datalog execution exceeded step limit"),
            RouterError::DatalogError => String::from_str("datalog execution error"),
        }
    }
}

/// What a dispatch produced.
#[derive(Debug)]
pub enum DispatchResult {
    /// Datalog path: deltas to apply to the arrangement.
    Datalog(ExecResult),
    /// WASM path: quads to assert and retract, and the output bytes.
    Wasm(InvokeResult),
}

/// Dispatches a Datalog invocation: the program is executed under the
/// identifier of `program_cid`'s bytes; a step overrun is an error.
pub fn dispatch_datalog(
    program_cid: &str,
    program: &DatalogProgram,
    arrangement: &Arrangement,
    input_deltas: &[Delta],
    max_steps: u32,
    call_id: u64,
) -> (r: Result<DispatchResult, RouterError>)
    ensures
        program@.len() <= max_steps ==> (r matches Ok(DispatchResult::Datalog(res)) && res.call_id
            == call_id && res.status == ExecStatus::Completed && res.steps_used == program@.len()
            && deltas_view(res.out_deltas@) == repeated(
            evaluate(program@, deltas_view(input_deltas@)),
            program@.len(),
        )),
        program@.len() > max_steps ==> r matches Err(RouterError::StepsExceeded),
{
    let cid = KotobaCid::from_bytes(program_cid.as_bytes());
    let result = KotobaVm::execute(&cid, program, arrangement, input_deltas, max_steps, call_id);
    match result.status {
        ExecStatus::Completed | ExecStatus::Halt => Ok(DispatchResult::Datalog(result)),
        ExecStatus::StepsExceeded => Err(RouterError::StepsExceeded),
        ExecStatus::Failed => Err(RouterError::DatalogError),
    }
}

/// The program bytes a WASM dispatch needs.
pub fn wasm_bytes(program_bytes: Option<&[u8]>) -> (r: Result<&[u8], RouterError>)
    ensures
        match program_bytes {
            Some(b) => r matches Ok(x) && x@ == b@,
            None => r matches Err(RouterError::MissingWasmBytes),
        },
{
    match program_bytes {
        Some(b) => Ok(b),
        None => Err(RouterError::MissingWasmBytes),
    }
}

/// The concatenation of rows.
pub open spec fn flatten_rows(rows: Seq<Seq<u8>>) -> Seq<u8>
    decreases rows.len(),
{
    if rows.len() == 0 {
        Seq::empty()
    } else {
        flatten_rows(rows.drop_last()) + rows.last()
    }
}

/// The invocation result of a UDF call: its output rows concatenated, no
/// gas charged, no quads.
pub fn udf_invoke_result(out_rows: Vec<Vec<u8>>) -> (r: InvokeResult)
    ensures
        r.output_cbor@ == flatten_rows(out_rows@.map_values(|x: Vec<u8>| x@)),
        r.gas_used == 0,
        r.assert_quads@.len() == 0,
        r.retract_quads@.len() == 0,
{
    let ghost rows = out_rows@.map_values(|x: Vec<u8>| x@);
    let mut output: Vec<u8> = Vec::new();
    for i in 0..out_rows.len()
        invariant
            rows == out_rows@.map_values(|x: Vec<u8>| x@),
            output@ == flatten_rows(rows.take(i as int)),
    {
        let mut row = out_rows[i].clone();
        let ghost before = output@;
        output.append(&mut row);
        assert(rows.take(i + 1).drop_last() =~= rows.take(i as int));
        assert(output@ =~= before + rows[i as int]);
    }
    assert(rows.take(out_rows@.len() as int) =~= rows);
    InvokeResult { output_cbor: output, gas_used: 0, assert_quads: Vec::new(), retract_quads: Vec::new() }
}

} // verus!
