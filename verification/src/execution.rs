//! Executions of a WebAssembly module: what is kept of one, and the course of
//! carrying one out.

use std::collections::hash_map::DefaultHasher;
use std::hash::Hasher;
use vstd::prelude::*;

use crate::record::le_bytes;
use crate::value::Val;

verus! {

/// What is kept of an execution.
#[derive(Debug)]
pub struct ExecutionResult {
    /// The hashes of the exported memories, in the order of the exports.
    pub mem_hashes: Vec<u64>,
    /// The values of the exported globals, in the order of the exports.
    pub glob_vals: Vec<Val>,
    pub stdout: String,
    pub stderr: String,
    /// The time that the call took.
    pub elapsed_nanos: u128,
    /// The generated machine code.
    pub machine_code: Vec<u8>,
}

/// The contents of an [`ExecutionResult`].
#[verifier::ext_equal]
pub struct ExecutionView {
    pub mem_hashes: Seq<u64>,
    pub glob_vals: Seq<Val>,
    pub stdout: Seq<char>,
    pub stderr: Seq<char>,
    pub elapsed_nanos: u128,
    pub machine_code: Seq<u8>,
}

impl View for ExecutionResult {
    type V = ExecutionView;

    open spec fn view(&self) -> ExecutionView {
        ExecutionView {
            mem_hashes: self.mem_hashes@,
            glob_vals: self.glob_vals@,
            stdout: self.stdout@,
            stderr: self.stderr@,
            elapsed_nanos: self.elapsed_nanos,
            machine_code: self.machine_code@,
        }
    }
}

/// The contents of an execution, where there is one.
pub open spec fn execution_view(result: Option<ExecutionResult>) -> Option<ExecutionView> {
    match result {
        Some(execution) => Some(execution@),
        None => None,
    }
}

/// What an export of the module holds after the execution.
#[derive(Debug)]
pub enum Export {
    Global(Val),
    /// The bytes of a memory.
    Memory(Vec<u8>),
    /// A function or a table.
    Other,
}

/// What the hasher is fed for a memory: the length, then the bytes.
pub open spec fn memory_feed(bytes: Seq<u8>) -> Seq<Seq<u8>> {
    seq![crate::record::to_little_endian(bytes.len(), 8), bytes]
}

/// The hash of a memory: the default hasher's.
pub open spec fn memory_hash(bytes: Seq<u8>) -> u64 {
    <DefaultHasher as vstd::std_specs::hash::DefaultHasherAdditionalSpecFns>::spec_finish(
        memory_feed(bytes),
    )
}

/// The hashes of the memories among the exports.
pub open spec fn memory_hashes(exports: Seq<Export>) -> Seq<u64>
    decreases exports.len(),
{
    if exports.len() == 0 {
        Seq::empty()
    } else {
        let before = memory_hashes(exports.drop_last());
        match exports.last() {
            Export::Memory(bytes) => before.push(memory_hash(bytes@)),
            _ => before,
        }
    }
}

/// The values of the globals among the exports.
pub open spec fn global_values(exports: Seq<Export>) -> Seq<Val>
    decreases exports.len(),
{
    if exports.len() == 0 {
        Seq::empty()
    } else {
        let before = global_values(exports.drop_last());
        match exports.last() {
            Export::Global(value) => before.push(value),
            _ => before,
        }
    }
}

/// Hashes a memory.
pub fn hash_memory(bytes: &Vec<u8>) -> (hash: u64)
    ensures
        hash == memory_hash(bytes@),
        hash
            == <DefaultHasher as vstd::std_specs::hash::DefaultHasherAdditionalSpecFns>::spec_finish(
            seq![crate::record::to_little_endian(bytes@.len(), 8), bytes@],
        ),
{
    let mut hasher: DefaultHasher = DefaultHasher::new();
    let length: Vec<u8> = le_bytes(bytes.len());
    hasher.write(length.as_slice());
    hasher.write(bytes.as_slice());
    assert(hasher@ =~= seq![crate::record::to_little_endian(bytes@.len(), 8), bytes@]);
    hasher.finish()
}

/// The state that an execution left behind: the hashes of the memories and the
/// values of the globals, each in the order of the exports.
pub fn assert_same_state(exports: &Vec<Export>) -> (state: (Vec<u64>, Vec<Val>))
    ensures
        state.0@ == memory_hashes(exports@),
        state.1@ == global_values(exports@),
{
    let mut mem_hashes: Vec<u64> = Vec::new();
    let mut glob_vals: Vec<Val> = Vec::new();
    let mut i: usize = 0;
    assert(exports@.take(0) =~= Seq::empty());
    while i < exports.len()
        invariant
            i <= exports@.len(),
            mem_hashes@ == memory_hashes(exports@.take(i as int)),
            glob_vals@ == global_values(exports@.take(i as int)),
        decreases exports@.len() - i,
    {
        proof {
            let longer = exports@.take(i + 1);
            assert(longer.drop_last() =~= exports@.take(i as int));
            assert(longer.last() == exports@[i as int]);
        }
        match &exports[i] {
            Export::Global(value) => {
                glob_vals.push(*value);
            },
            Export::Memory(bytes) => {
                mem_hashes.push(hash_memory(bytes));
            },
            Export::Other => {},
        }
        i = i + 1;
    }
    assert(exports@.take(exports@.len() as int) =~= exports@);
    (mem_hashes, glob_vals)
}

/// The amount of fuel to run with. None at all means that fuel is not metered.
pub fn fuel_limit(fuel: u64) -> (limit: Option<u64>)
    ensures
        limit == (if fuel > 0 {
            Some(fuel)
        } else {
            None
        }),
        limit is Some <==> fuel != 0,
        limit matches Some(amount) ==> amount == fuel,
{
    if fuel > 0 {
        Some(fuel)
    } else {
        None
    }
}

/// The value of the time-stamp counter out of the two halves that the
/// processor hands over.
pub fn _rdtsc(eax: u32, edx: u32) -> (counter: u64)
    ensures
        counter == edx * 0x1_0000_0000 + eax,
        counter as int % 0x1_0000_0000 == eax,
        counter as int / 0x1_0000_0000 == edx,
{
    edx as u64 * 0x1_0000_0000 + eax as u64
}

/// How far an execution has come.
#[derive(Debug)]
pub enum ExecutionStage {
    /// The module is being compiled.
    Compiling { machine_code: bool },
    /// The module is being instantiated.
    Instantiating { machine_code: bool },
    /// The entry point is being looked up.
    Locating { machine_code: bool },
    /// The entry point is being called.
    Calling { machine_code: bool },
    /// What was printed is being read.
    Reading { machine_code: bool, elapsed_nanos: u128 },
    /// The state that was left behind is being collected.
    Collecting { machine_code: bool, elapsed_nanos: u128, stdout: String, stderr: String },
    /// The execution is over.
    Over,
}

/// What came of the last thing to do.
#[derive(Debug)]
pub enum ExecutionEvent {
    Compiled { ok: bool },
    Instantiated { ok: bool },
    Located { found: bool },
    /// The call returned or trapped after this time.
    Called { elapsed_nanos: u128 },
    Read { stdout: Option<String>, stderr: Option<String> },
    Collected { exports: Vec<Export>, machine_code: Vec<u8> },
}

/// What to do next.
#[derive(Debug)]
pub enum ExecutionAction {
    Instantiate,
    Locate,
    Call,
    Read,
    /// Collect the exports, and the machine code where it is asked for.
    Collect { machine_code: bool },
    Finish(Option<ExecutionResult>),
}

/// Whether `event` answers what was to be done at `stage`.
pub open spec fn execution_expects(stage: ExecutionStage, event: ExecutionEvent) -> bool {
    match stage {
        ExecutionStage::Compiling { .. } => event is Compiled,
        ExecutionStage::Instantiating { .. } => event is Instantiated,
        ExecutionStage::Locating { .. } => event is Located,
        ExecutionStage::Calling { .. } => event is Called,
        ExecutionStage::Reading { .. } => event is Read,
        ExecutionStage::Collecting { .. } => event is Collected,
        ExecutionStage::Over => false,
    }
}

/// The execution is given up.
pub open spec fn execution_fails(next: (ExecutionStage, ExecutionAction)) -> bool {
    next.0 is Over && next.1 == ExecutionAction::Finish(None)
}

/// How `next` follows from an event at a stage. A module that does not
/// compile, does not instantiate or has no entry point gives no result; neither
/// does one whose output cannot be read. A call that traps counts like one
/// that returns.
pub open spec fn execution_step(
    stage: ExecutionStage,
    event: ExecutionEvent,
    next: (ExecutionStage, ExecutionAction),
) -> bool {
    match (stage, event) {
        (
            ExecutionStage::Compiling { machine_code },
            ExecutionEvent::Compiled { ok },
        ) => if ok {
            next == (
                ExecutionStage::Instantiating { machine_code },
                ExecutionAction::Instantiate,
            )
        } else {
            execution_fails(next)
        },
        (
            ExecutionStage::Instantiating { machine_code },
            ExecutionEvent::Instantiated { ok },
        ) => if ok {
            next == (ExecutionStage::Locating { machine_code }, ExecutionAction::Locate)
        } else {
            execution_fails(next)
        },
        (
            ExecutionStage::Locating { machine_code },
            ExecutionEvent::Located { found },
        ) => if found {
            next == (ExecutionStage::Calling { machine_code }, ExecutionAction::Call)
        } else {
            execution_fails(next)
        },
        (
            ExecutionStage::Calling { machine_code },
            ExecutionEvent::Called { elapsed_nanos },
        ) => next == (
            ExecutionStage::Reading { machine_code, elapsed_nanos },
            ExecutionAction::Read,
        ),
        (
            ExecutionStage::Reading { machine_code, elapsed_nanos },
            ExecutionEvent::Read { stdout, stderr },
        ) => match (stdout, stderr) {
            (Some(stdout), Some(stderr)) => next == (
                ExecutionStage::Collecting { machine_code, elapsed_nanos, stdout, stderr },
                ExecutionAction::Collect { machine_code },
            ),
            _ => execution_fails(next),
        },
        (
            ExecutionStage::Collecting { machine_code, elapsed_nanos, stdout, stderr },
            ExecutionEvent::Collected { exports, machine_code: code },
        ) => next.0 is Over && next.1 is Finish && execution_view(next.1->Finish_0) == Some(
            ExecutionView {
                mem_hashes: memory_hashes(exports@),
                glob_vals: global_values(exports@),
                stdout: stdout@,
                stderr: stderr@,
                elapsed_nanos,
                machine_code: if machine_code {
                    code@
                } else {
                    Seq::empty()
                },
            },
        ),
        _ => false,
    }
}

/// One step of an execution.
pub fn execute_single(stage: ExecutionStage, event: ExecutionEvent) -> (next: (
    ExecutionStage,
    ExecutionAction,
))
    requires
        execution_expects(stage, event),
    ensures
        execution_step(stage, event, next),
{
    match (stage, event) {
        (ExecutionStage::Compiling { machine_code }, ExecutionEvent::Compiled { ok }) => {
            if ok {
                return (
                    ExecutionStage::Instantiating { machine_code },
                    ExecutionAction::Instantiate,
                );
            }
        },
        (ExecutionStage::Instantiating { machine_code }, ExecutionEvent::Instantiated { ok }) => {
            if ok {
                return (ExecutionStage::Locating { machine_code }, ExecutionAction::Locate);
            }
        },
        (ExecutionStage::Locating { machine_code }, ExecutionEvent::Located { found }) => {
            if found {
                return (ExecutionStage::Calling { machine_code }, ExecutionAction::Call);
            }
        },
        (ExecutionStage::Calling { machine_code }, ExecutionEvent::Called { elapsed_nanos }) => {
            return (
                ExecutionStage::Reading { machine_code, elapsed_nanos },
                ExecutionAction::Read,
            );
        },
        (
            ExecutionStage::Reading { machine_code, elapsed_nanos },
            ExecutionEvent::Read { stdout, stderr },
        ) => {
            match (stdout, stderr) {
                (Some(stdout), Some(stderr)) => {
                    return (
                        ExecutionStage::Collecting { machine_code, elapsed_nanos, stdout, stderr },
                        ExecutionAction::Collect { machine_code },
                    );
                },
                _ => {},
            }
        },
        (
            ExecutionStage::Collecting { machine_code, elapsed_nanos, stdout, stderr },
            ExecutionEvent::Collected { exports, machine_code: code },
        ) => {
            let (mem_hashes, glob_vals) = assert_same_state(&exports);
            let kept: Vec<u8> = if machine_code {
                code
            } else {
                Vec::new()
            };
            let execution = ExecutionResult {
                mem_hashes,
                glob_vals,
                stdout,
                stderr,
                elapsed_nanos,
                machine_code: kept,
            };
            return (ExecutionStage::Over, ExecutionAction::Finish(Some(execution)));
        },
        _ => {},
    }
    (ExecutionStage::Over, ExecutionAction::Finish(None))
}

/// The course of an execution whose module compiles, instantiates and has an
/// entry point, and whose output can be read: it ends with a result, which
/// holds the state left behind, what was printed, the time that the call took
/// and, only where it was asked for, the machine code.
pub proof fn law_execution_runs_to_its_result(
    asked: bool,
    elapsed_nanos: u128,
    stdout: String,
    stderr: String,
    exports: Vec<Export>,
    code: Vec<u8>,
    after_compiling: (ExecutionStage, ExecutionAction),
    after_instantiating: (ExecutionStage, ExecutionAction),
    after_locating: (ExecutionStage, ExecutionAction),
    after_calling: (ExecutionStage, ExecutionAction),
    after_reading: (ExecutionStage, ExecutionAction),
    after_collecting: (ExecutionStage, ExecutionAction),
)
    requires
        execution_step(
            ExecutionStage::Compiling { machine_code: asked },
            ExecutionEvent::Compiled { ok: true },
            after_compiling,
        ),
        execution_step(
            after_compiling.0,
            ExecutionEvent::Instantiated { ok: true },
            after_instantiating,
        ),
        execution_step(
            after_instantiating.0,
            ExecutionEvent::Located { found: true },
            after_locating,
        ),
        execution_step(
            after_locating.0,
            ExecutionEvent::Called { elapsed_nanos },
            after_calling,
        ),
        execution_step(
            after_calling.0,
            ExecutionEvent::Read { stdout: Some(stdout), stderr: Some(stderr) },
            after_reading,
        ),
        execution_step(
            after_reading.0,
            ExecutionEvent::Collected { exports, machine_code: code },
            after_collecting,
        ),
    ensures
        after_compiling.1 is Instantiate,
        after_instantiating.1 is Locate,
        after_locating.1 is Call,
        after_calling.1 is Read,
        after_reading.1 == (ExecutionAction::Collect { machine_code: asked }),
        after_collecting.0 is Over,
        after_collecting.1 is Finish,
        execution_view(after_collecting.1->Finish_0) == Some(
            ExecutionView {
                mem_hashes: memory_hashes(exports@),
                glob_vals: global_values(exports@),
                stdout: stdout@,
                stderr: stderr@,
                elapsed_nanos,
                machine_code: if asked {
                    code@
                } else {
                    Seq::empty()
                },
            },
        ),
{
}

/// The hash of a memory is that of all of it: the hasher is fed the length in
/// eight bytes, the low one first, and then every byte of the memory.
pub proof fn law_memory_hash_is_of_all_of_it(bytes: Seq<u8>, fed: Seq<Seq<u8>>)
    requires
        bytes.len() <= u64::MAX,
        fed.len() == 2,
        fed[0].len() == 8,
        fed[0][0] == bytes.len() as int % 256,
        fed[0][1] == bytes.len() as int / 0x100 % 256,
        fed[0][2] == bytes.len() as int / 0x1_0000 % 256,
        fed[0][3] == bytes.len() as int / 0x100_0000 % 256,
        fed[0][4] == bytes.len() as int / 0x1_0000_0000 % 256,
        fed[0][5] == bytes.len() as int / 0x100_0000_0000 % 256,
        fed[0][6] == bytes.len() as int / 0x1_0000_0000_0000 % 256,
        fed[0][7] == bytes.len() as int / 0x100_0000_0000_0000 % 256,
        fed[1] == bytes,
    ensures
        memory_hash(bytes)
            == <DefaultHasher as vstd::std_specs::hash::DefaultHasherAdditionalSpecFns>::spec_finish(
            fed,
        ),
{
    crate::record::law_low_bytes(bytes.len());
    assert(fed[0] =~= crate::record::to_little_endian(bytes.len(), 8));
    assert(fed =~= memory_feed(bytes));
}

/// Two memories are fed to the hasher alike only if they are equal byte for
/// byte.
pub proof fn law_memories_are_fed_apart(a: Seq<u8>, b: Seq<u8>)
    requires
        memory_feed(a) == memory_feed(b),
    ensures
        a == b,
{
    assert(memory_feed(a)[1] == memory_feed(b)[1]);
}

/// The hash that is kept of a memory is that of what was fed for it.
pub proof fn law_memory_hash_is_of_what_was_fed(bytes: Seq<u8>)
    ensures
        memory_hash(bytes)
            == <DefaultHasher as vstd::std_specs::hash::DefaultHasherAdditionalSpecFns>::spec_finish(
            memory_feed(bytes),
        ),
{
}

/// The state that is left behind is put together export by export, in order: a
/// memory gives its hash, a global its value, and any other export nothing.
pub proof fn law_state_is_put_together_export_by_export(exports: Seq<Export>, export: Export)
    ensures
        memory_hashes(exports.push(export)) == memory_hashes(exports) + match export {
            Export::Memory(bytes) => seq![memory_hash(bytes@)],
            _ => Seq::<u64>::empty(),
        },
        global_values(exports.push(export)) == global_values(exports) + match export {
            Export::Global(value) => seq![value],
            _ => Seq::<Val>::empty(),
        },
        memory_hashes(Seq::empty()) == Seq::<u64>::empty(),
        global_values(Seq::empty()) == Seq::<Val>::empty(),
{
    assert(exports.push(export).drop_last() =~= exports);
    assert(exports.push(export).last() == export);
}

/// Every memory among the exports has its hash in the state, and every global
/// its value, behind as many as there are memories or globals before it.
pub proof fn law_no_export_is_left_out(exports: Seq<Export>, at: int)
    requires
        0 <= at < exports.len(),
    ensures
        exports[at] matches Export::Memory(bytes) ==> {
            let place = memory_hashes(exports.take(at)).len() as int;
            place < memory_hashes(exports).len() && memory_hashes(exports)[place] == memory_hash(
                bytes@,
            )
        },
        exports[at] matches Export::Global(value) ==> {
            let place = global_values(exports.take(at)).len() as int;
            place < global_values(exports).len() && global_values(exports)[place] == value
        },
    decreases exports.len(),
{
    let last = exports.len() - 1;
    let fewer = exports.drop_last();
    assert(fewer.take(at) =~= exports.take(at));
    if at < last {
        law_no_export_is_left_out(fewer, at);
        assert(fewer[at] == exports[at]);
    } else {
        assert(exports.take(at) =~= fewer);
    }
}

/// A module that does not compile, does not instantiate or has no entry point,
/// and one whose output cannot be read, has no result.
pub proof fn law_failed_executions_have_no_result(
    stage: ExecutionStage,
    event: ExecutionEvent,
    next: (ExecutionStage, ExecutionAction),
)
    requires
        execution_expects(stage, event),
        execution_step(stage, event, next),
        match event {
            ExecutionEvent::Compiled { ok } => !ok,
            ExecutionEvent::Instantiated { ok } => !ok,
            ExecutionEvent::Located { found } => !found,
            ExecutionEvent::Read { stdout, stderr } => stdout is None || stderr is None,
            _ => false,
        },
    ensures
        next.0 is Over,
        next.1 is Finish,
        next.1->Finish_0 is None,
{
}

/// Nothing but such a failure ends an execution without a result, and every
/// stage leads on to the next one.
pub proof fn law_only_failures_have_no_result(
    stage: ExecutionStage,
    event: ExecutionEvent,
    next: (ExecutionStage, ExecutionAction),
)
    requires
        execution_expects(stage, event),
        execution_step(stage, event, next),
        next.1 matches ExecutionAction::Finish(None),
    ensures
        match event {
            ExecutionEvent::Compiled { ok } => !ok,
            ExecutionEvent::Instantiated { ok } => !ok,
            ExecutionEvent::Located { found } => !found,
            ExecutionEvent::Read { stdout, stderr } => stdout is None || stderr is None,
            _ => false,
        },
{
}

/// What an execution came to is kept as it is.
pub proof fn law_execution_is_kept_as_it_is(execution: ExecutionResult)
    ensures
        execution_view(Some(execution)) == Some(execution@),
        execution_view(None) is None,
        execution@.mem_hashes == execution.mem_hashes@,
        execution@.glob_vals == execution.glob_vals@,
        execution@.stdout == execution.stdout@,
        execution@.stderr == execution.stderr@,
        execution@.elapsed_nanos == execution.elapsed_nanos,
        execution@.machine_code == execution.machine_code@,
{
}

/// Every execution that is not over can be taken further, with any outcome of
/// what is to be done.
pub proof fn law_execution_can_be_taken_further(
    stage: ExecutionStage,
    event: ExecutionEvent,
    next: (ExecutionStage, ExecutionAction),
    good: bool,
    elapsed_nanos: u128,
    stdout: Option<String>,
    stderr: Option<String>,
    exports: Vec<Export>,
    machine_code: Vec<u8>,
)
    requires
        execution_expects(stage, event),
        execution_step(stage, event, next),
    ensures
        match next.1 {
            ExecutionAction::Instantiate => execution_expects(
                next.0,
                ExecutionEvent::Instantiated { ok: good },
            ),
            ExecutionAction::Locate => execution_expects(
                next.0,
                ExecutionEvent::Located { found: good },
            ),
            ExecutionAction::Call => execution_expects(
                next.0,
                ExecutionEvent::Called { elapsed_nanos },
            ),
            ExecutionAction::Read => execution_expects(
                next.0,
                ExecutionEvent::Read { stdout, stderr },
            ),
            ExecutionAction::Collect { .. } => execution_expects(
                next.0,
                ExecutionEvent::Collected { exports, machine_code },
            ),
            ExecutionAction::Finish(_) => next.0 is Over,
        },
{
}

} // verus!
