//! The comparison of a variant with the original: both are executed on the
//! same arguments, and the variant is kept only if nothing tells them apart.

use vstd::prelude::*;

use crate::command::{get_args, split_command};
use crate::execution::ExecutionResult;
use crate::value::assert_val_eq;

verus! {

/// Whether nothing tells two executions apart: they print the same and, where
/// memories are to be checked, leave the same memories and globals behind.
pub open spec fn same_execution(
    original: crate::execution::ExecutionView,
    mutated: crate::execution::ExecutionView,
    check_mem: bool,
) -> bool {
    &&& original.stdout == mutated.stdout
    &&& check_mem ==> {
        &&& original.mem_hashes == mutated.mem_hashes
        &&& forall|i: int|
            #![trigger original.glob_vals[i]]
            #![trigger mutated.glob_vals[i]]
            0 <= i < original.glob_vals.len() && i < mutated.glob_vals.len()
                ==> crate::value::val_eq(original.glob_vals[i], mutated.glob_vals[i])
    }
}

/// What comes of comparing two executions: the variant's, without its machine
/// code, where both took place and nothing tells them apart.
pub open spec fn compared(
    original: Option<crate::execution::ExecutionView>,
    mutated: Option<crate::execution::ExecutionView>,
    check_mem: bool,
) -> Option<crate::execution::ExecutionView> {
    match (original, mutated) {
        (Some(o), Some(m)) => if same_execution(o, m, check_mem) {
            Some(crate::execution::ExecutionView { machine_code: Seq::empty(), ..m })
        } else {
            None
        },
        _ => None,
    }
}

fn same_memories(original: &ExecutionResult, mutated: &ExecutionResult) -> (same: bool)
    ensures
        same == (original@.mem_hashes == mutated@.mem_hashes),
{
    if original.mem_hashes.len() != mutated.mem_hashes.len() {
        return false;
    }
    let mut i: usize = 0;
    while i < original.mem_hashes.len()
        invariant
            i <= original@.mem_hashes.len() == mutated@.mem_hashes.len(),
            forall|k: int| 0 <= k < i ==> original@.mem_hashes[k] == mutated@.mem_hashes[k],
        decreases original@.mem_hashes.len() - i,
    {
        if original.mem_hashes[i] != mutated.mem_hashes[i] {
            return false;
        }
        i = i + 1;
    }
    assert(original@.mem_hashes =~= mutated@.mem_hashes);
    true
}

fn same_globals(original: &ExecutionResult, mutated: &ExecutionResult) -> (same: bool)
    ensures
        same == (forall|i: int|
            #![trigger original@.glob_vals[i]]
            #![trigger mutated@.glob_vals[i]]
            0 <= i < original@.glob_vals.len() && i < mutated@.glob_vals.len()
                ==> crate::value::val_eq(original@.glob_vals[i], mutated@.glob_vals[i])),
{
    let mut i: usize = 0;
    while i < original.glob_vals.len() && i < mutated.glob_vals.len()
        invariant
            i <= original@.glob_vals.len(),
            i <= mutated@.glob_vals.len(),
            forall|k: int|
                0 <= k < i ==> crate::value::val_eq(
                    #[trigger] original@.glob_vals[k],
                    mutated@.glob_vals[k],
                ),
        decreases original@.glob_vals.len() - i,
    {
        if !assert_val_eq(&original.glob_vals[i], &mutated.glob_vals[i]) {
            assert(!crate::value::val_eq(
                original@.glob_vals[i as int],
                mutated@.glob_vals[i as int],
            ));
            return false;
        }
        i = i + 1;
    }
    true
}

/// Compares an execution of the original with one of the variant on the same
/// arguments. Without both executions there is nothing to compare, and the
/// variant is turned down.
pub fn assert_same_evaluation_single(
    original: Option<ExecutionResult>,
    mutated: Option<ExecutionResult>,
    check_mem: bool,
) -> (same: Option<ExecutionResult>)
    ensures
        crate::execution::execution_view(same) == compared(
            crate::execution::execution_view(original),
            crate::execution::execution_view(mutated),
            check_mem,
        ),
        same is Some ==> original is Some && mutated is Some && original->0.stdout@
            == mutated->0.stdout@,
        same is Some && check_mem ==> original->0.mem_hashes@ == mutated->0.mem_hashes@,
{
    match (original, mutated) {
        (Some(o), Some(m)) => {
            if !(o.stdout == m.stdout) {
                return None;
            }
            if check_mem {
                if !same_memories(&o, &m) {
                    return None;
                }
                if !same_globals(&o, &m) {
                    return None;
                }
            }
            let same = ExecutionResult {
                mem_hashes: m.mem_hashes,
                glob_vals: m.glob_vals,
                stdout: m.stdout,
                stderr: m.stderr,
                elapsed_nanos: m.elapsed_nanos,
                machine_code: Vec::new(),
            };
            assert(same_execution(o@, m@, check_mem));
            Some(same)
        },
        _ => None,
    }
}

/// Nothing tells an execution apart from itself.
pub proof fn law_same_execution_reflexive(
    execution: crate::execution::ExecutionView,
    check_mem: bool,
)
    ensures
        same_execution(execution, execution, check_mem),
{
    assert forall|i: int| 0 <= i < execution.glob_vals.len() implies crate::value::val_eq(
        #[trigger] execution.glob_vals[i],
        execution.glob_vals[i],
    ) by {
        crate::value::law_val_eq_reflexive(execution.glob_vals[i]);
    }
}

/// It does not matter which of two executions is the original's.
pub proof fn law_same_execution_symmetric(
    a: crate::execution::ExecutionView,
    b: crate::execution::ExecutionView,
    check_mem: bool,
)
    ensures
        same_execution(a, b, check_mem) == same_execution(b, a, check_mem),
{
    lemma_same_execution_flips(a, b, check_mem);
    lemma_same_execution_flips(b, a, check_mem);
}

proof fn lemma_same_execution_flips(
    a: crate::execution::ExecutionView,
    b: crate::execution::ExecutionView,
    check_mem: bool,
)
    ensures
        same_execution(a, b, check_mem) ==> same_execution(b, a, check_mem),
{
    if same_execution(a, b, check_mem) && check_mem {
        assert forall|i: int|
            #![trigger b.glob_vals[i]]
            #![trigger a.glob_vals[i]]
            0 <= i < b.glob_vals.len() && i < a.glob_vals.len() implies crate::value::val_eq(
            b.glob_vals[i],
            a.glob_vals[i],
        ) by {
            crate::value::law_val_eq_symmetric(a.glob_vals[i], b.glob_vals[i]);
        }
    }
}

/// Checking memories only ever turns more variants down.
pub proof fn law_checking_memories_is_stricter(
    a: crate::execution::ExecutionView,
    b: crate::execution::ExecutionView,
)
    requires
        same_execution(a, b, true),
    ensures
        same_execution(a, b, false),
{
}

/// How far a comparison has come.
#[derive(Debug)]
pub enum Evaluation {
    /// Nothing has been done yet.
    Initial { args: Vec<String>, generator: Option<String> },
    /// Both modules are being executed on the given arguments.
    First { generator: Option<String> },
    /// The argument generator is running.
    Generating { first: Option<ExecutionResult> },
    /// Both modules are being executed on the argument list at `next`.
    Rest { first: Option<ExecutionResult>, queue: Vec<Vec<String>>, next: usize },
    /// The comparison is over.
    Over,
}

/// What came of the last thing to do.
#[derive(Debug)]
pub enum EvaluationEvent {
    Begin,
    /// The two modules were executed.
    Executed { original: Option<ExecutionResult>, mutated: Option<ExecutionResult> },
    /// The argument generator printed this.
    Generated { stdout: String },
}

/// What to do next.
#[derive(Debug)]
pub enum EvaluationAction {
    /// Execute both modules on these arguments.
    Execute { args: Vec<String> },
    /// Run the argument generator: the program and its arguments.
    Generate { command: Vec<String> },
    /// The comparison is over: the variant's execution, or nothing if it is
    /// turned down.
    Verdict(Option<ExecutionResult>),
}

/// The contents of an [`Evaluation`].
#[verifier::ext_equal]
pub enum EvaluationView {
    Initial { args: Seq<Seq<char>>, generator: Option<Seq<char>> },
    First { generator: Option<Seq<char>> },
    Generating { first: Option<crate::execution::ExecutionView> },
    Rest {
        first: Option<crate::execution::ExecutionView>,
        queue: Seq<Seq<Seq<char>>>,
        next: nat,
    },
    Over,
}

/// The contents of an [`EvaluationEvent`].
#[verifier::ext_equal]
pub enum EvaluationEventView {
    Begin,
    Executed {
        original: Option<crate::execution::ExecutionView>,
        mutated: Option<crate::execution::ExecutionView>,
    },
    Generated { stdout: Seq<char> },
}

/// The contents of an [`EvaluationAction`].
#[verifier::ext_equal]
pub enum EvaluationActionView {
    Execute { args: Seq<Seq<char>> },
    Generate { command: Seq<Seq<char>> },
    Verdict(Option<crate::execution::ExecutionView>),
}

/// The text of a string, where there is one.
pub open spec fn optional_text(text: Option<String>) -> Option<Seq<char>> {
    match text {
        Some(text) => Some(text@),
        None => None,
    }
}

impl View for Evaluation {
    type V = EvaluationView;

    open spec fn view(&self) -> EvaluationView {
        match *self {
            Evaluation::Initial { args, generator } => EvaluationView::Initial {
                args: crate::text::texts(args@),
                generator: optional_text(generator),
            },
            Evaluation::First { generator } => EvaluationView::First {
                generator: optional_text(generator),
            },
            Evaluation::Generating { first } => EvaluationView::Generating {
                first: crate::execution::execution_view(first),
            },
            Evaluation::Rest { first, queue, next } => EvaluationView::Rest {
                first: crate::execution::execution_view(first),
                queue: crate::command::arg_texts(queue@),
                next: next as nat,
            },
            Evaluation::Over => EvaluationView::Over,
        }
    }
}

impl View for EvaluationEvent {
    type V = EvaluationEventView;

    open spec fn view(&self) -> EvaluationEventView {
        match *self {
            EvaluationEvent::Begin => EvaluationEventView::Begin,
            EvaluationEvent::Executed { original, mutated } => EvaluationEventView::Executed {
                original: crate::execution::execution_view(original),
                mutated: crate::execution::execution_view(mutated),
            },
            EvaluationEvent::Generated { stdout } => EvaluationEventView::Generated {
                stdout: stdout@,
            },
        }
    }
}

impl View for EvaluationAction {
    type V = EvaluationActionView;

    open spec fn view(&self) -> EvaluationActionView {
        match *self {
            EvaluationAction::Execute { args } => EvaluationActionView::Execute {
                args: crate::text::texts(args@),
            },
            EvaluationAction::Generate { command } => EvaluationActionView::Generate {
                command: crate::text::texts(command@),
            },
            EvaluationAction::Verdict(result) => EvaluationActionView::Verdict(
                crate::execution::execution_view(result),
            ),
        }
    }
}

/// Whether `event` answers what was to be done.
pub open spec fn evaluation_expects(state: EvaluationView, event: EvaluationEventView) -> bool {
    match state {
        EvaluationView::Initial { .. } => event is Begin,
        EvaluationView::First { .. } => event is Executed,
        EvaluationView::Generating { .. } => event is Generated,
        EvaluationView::Rest { queue, next, .. } => event is Executed && next < queue.len(),
        EvaluationView::Over => false,
    }
}

/// One step of a comparison. The given arguments come first. Where there is an
/// argument generator, each of its argument lists follows, and the first one
/// on which the two modules differ turns the variant down. At the end the
/// verdict is that of the given arguments.
pub open spec fn evaluation_step(
    state: EvaluationView,
    event: EvaluationEventView,
    check_mem: bool,
) -> (EvaluationView, EvaluationActionView) {
    match (state, event) {
        (EvaluationView::Initial { args, generator }, _) => (
            EvaluationView::First { generator },
            EvaluationActionView::Execute { args },
        ),
        (
            EvaluationView::First { generator },
            EvaluationEventView::Executed { original, mutated },
        ) => {
            let first = compared(original, mutated, check_mem);
            match generator {
                Some(command) => (
                    EvaluationView::Generating { first },
                    EvaluationActionView::Generate {
                        command: crate::text::pieces(command, ' '),
                    },
                ),
                None => (EvaluationView::Over, EvaluationActionView::Verdict(first)),
            }
        },
        (EvaluationView::Generating { first }, EvaluationEventView::Generated { stdout }) => {
            let queue = crate::command::output_args(stdout);
            (
                EvaluationView::Rest { first, queue, next: 0 },
                EvaluationActionView::Execute { args: queue[0] },
            )
        },
        (
            EvaluationView::Rest { first, queue, next },
            EvaluationEventView::Executed { original, mutated },
        ) => if compared(original, mutated, check_mem) is None {
            (EvaluationView::Over, EvaluationActionView::Verdict(None))
        } else if next + 1 < queue.len() {
            (
                EvaluationView::Rest { first, queue, next: next + 1 },
                EvaluationActionView::Execute { args: queue[next as int + 1] },
            )
        } else {
            (EvaluationView::Over, EvaluationActionView::Verdict(first))
        },
        _ => (EvaluationView::Over, EvaluationActionView::Verdict(None)),
    }
}

pub(crate) fn copy_args(args: &Vec<String>) -> (copy: Vec<String>)
    ensures
        crate::text::texts(copy@) == crate::text::texts(args@),
{
    let mut copy: Vec<String> = Vec::new();
    let mut i: usize = 0;
    while i < args.len()
        invariant
            i <= args@.len(),
            copy@.len() == i,
            forall|k: int| 0 <= k < i ==> (#[trigger] copy@[k])@ == args@[k]@,
        decreases args@.len() - i,
    {
        copy.push(args[i].clone());
        i = i + 1;
    }
    assert(crate::text::texts(copy@) =~= crate::text::texts(args@));
    copy
}

/// One step of the comparison of a variant with the original.
pub fn assert_same_evaluation(
    state: Evaluation,
    event: EvaluationEvent,
    check_mem: bool,
) -> (next: (Evaluation, EvaluationAction))
    requires
        evaluation_expects(state@, event@),
    ensures
        (next.0@, next.1@) == evaluation_step(state@, event@, check_mem),
{
    match (state, event) {
        (Evaluation::Initial { args, generator }, EvaluationEvent::Begin) => {
            (Evaluation::First { generator }, EvaluationAction::Execute { args })
        },
        (
            Evaluation::First { generator },
            EvaluationEvent::Executed { original, mutated },
        ) => {
            let first = assert_same_evaluation_single(original, mutated, check_mem);
            match generator {
                Some(command) => {
                    let command: Vec<String> = split_command(command.as_str());
                    (Evaluation::Generating { first }, EvaluationAction::Generate { command })
                },
                None => (Evaluation::Over, EvaluationAction::Verdict(first)),
            }
        },
        (Evaluation::Generating { first }, EvaluationEvent::Generated { stdout }) => {
            let queue: Vec<Vec<String>> = get_args(stdout.as_str());
            let args: Vec<String> = copy_args(&queue[0]);
            assert(crate::command::arg_texts(queue@)[0] == crate::text::texts(queue@[0]@));
            (Evaluation::Rest { first, queue, next: 0 }, EvaluationAction::Execute { args })
        },
        (
            Evaluation::Rest { first, queue, next },
            EvaluationEvent::Executed { original, mutated },
        ) => {
            let count: usize = queue.len();
            assert(next < count) by {
                assert(crate::command::arg_texts(queue@).len() == count);
            }
            if assert_same_evaluation_single(original, mutated, check_mem).is_none() {
                (Evaluation::Over, EvaluationAction::Verdict(None))
            } else if next + 1 < count {
                let args: Vec<String> = copy_args(&queue[next + 1]);
                assert(crate::command::arg_texts(queue@)[next + 1] == crate::text::texts(
                    queue@[next + 1]@,
                ));
                (
                    Evaluation::Rest { first, queue, next: next + 1 },
                    EvaluationAction::Execute { args },
                )
            } else {
                (Evaluation::Over, EvaluationAction::Verdict(first))
            }
        },
        _ => (Evaluation::Over, EvaluationAction::Verdict(None)),
    }
}

/// The executions of the two modules on one argument list.
pub struct Executions {
    pub original: Option<crate::execution::ExecutionView>,
    pub mutated: Option<crate::execution::ExecutionView>,
}

/// Whether nothing tells the two modules apart on one argument list.
pub open spec fn accepted(pair: Executions, check_mem: bool) -> bool {
    compared(pair.original, pair.mutated, check_mem) is Some
}

/// The verdict that a comparison comes to when the two modules are executed
/// with these outcomes, one after the other; nothing if it comes to none.
pub open spec fn verdict_after(
    state: EvaluationView,
    outcomes: Seq<Executions>,
    check_mem: bool,
) -> Option<Option<crate::execution::ExecutionView>>
    decreases outcomes.len(),
{
    if outcomes.len() == 0 {
        None
    } else {
        let event = EvaluationEventView::Executed {
            original: outcomes[0].original,
            mutated: outcomes[0].mutated,
        };
        let (next, action) = evaluation_step(state, event, check_mem);
        match action {
            EvaluationActionView::Verdict(verdict) => Some(verdict),
            _ => verdict_after(next, outcomes.skip(1), check_mem),
        }
    }
}

/// Without an argument generator the verdict is that of the given arguments.
pub proof fn law_verdict_of_given_arguments(
    args: Seq<Seq<char>>,
    pair: Executions,
    check_mem: bool,
)
    ensures
        ({
            let initial = EvaluationView::Initial { args, generator: None };
            let (state, action) = evaluation_step(initial, EvaluationEventView::Begin, check_mem);
            &&& action == EvaluationActionView::Execute { args }
            &&& verdict_after(state, seq![pair], check_mem) == Some(
                compared(pair.original, pair.mutated, check_mem),
            )
        }),
{
}

/// With an argument generator a variant passes if and only if nothing tells it
/// apart from the original on the given arguments nor on any of the generated
/// argument lists, and the verdict is then that of the given arguments.
pub proof fn law_verdict_of_generated_arguments(
    args: Seq<Seq<char>>,
    command: Seq<char>,
    pair: Executions,
    stdout: Seq<char>,
    outcomes: Seq<Executions>,
    check_mem: bool,
)
    requires
        outcomes.len() == crate::command::output_args(stdout).len(),
    ensures
        ({
            let initial = EvaluationView::Initial { args, generator: Some(command) };
            let (s1, a1) = evaluation_step(initial, EvaluationEventView::Begin, check_mem);
            let (s2, a2) = evaluation_step(
                s1,
                EvaluationEventView::Executed { original: pair.original, mutated: pair.mutated },
                check_mem,
            );
            let (s3, a3) = evaluation_step(
                s2,
                EvaluationEventView::Generated { stdout },
                check_mem,
            );
            &&& a1 == EvaluationActionView::Execute { args }
            &&& a2 == EvaluationActionView::Generate { command: crate::text::pieces(command, ' ') }
            &&& a3 == EvaluationActionView::Execute {
                args: crate::command::output_args(stdout)[0],
            }
            &&& verdict_after(s3, outcomes, check_mem) == Some(
                if forall|i: int|
                    0 <= i < outcomes.len() ==> accepted(#[trigger] outcomes[i], check_mem) {
                    compared(pair.original, pair.mutated, check_mem)
                } else {
                    None
                },
            )
        }),
{
    let first = compared(pair.original, pair.mutated, check_mem);
    let queue = crate::command::output_args(stdout);
    crate::text::law_split_then_join(crate::text::trimmed(stdout), '\n');
    lemma_verdict_from(first, queue, 0, outcomes, check_mem);
}

proof fn lemma_verdict_from(
    first: Option<crate::execution::ExecutionView>,
    queue: Seq<Seq<Seq<char>>>,
    next: nat,
    outcomes: Seq<Executions>,
    check_mem: bool,
)
    requires
        outcomes.len() >= 1,
        next + outcomes.len() == queue.len(),
    ensures
        verdict_after(EvaluationView::Rest { first, queue, next }, outcomes, check_mem) == Some(
            if forall|i: int| 0 <= i < outcomes.len() ==> accepted(#[trigger] outcomes[i], check_mem) {
                first
            } else {
                None
            },
        ),
    decreases outcomes.len(),
{
    let rest = outcomes.skip(1);
    if !accepted(outcomes[0], check_mem) {
    } else if outcomes.len() == 1 {
        assert forall|i: int| 0 <= i < outcomes.len() implies accepted(
            #[trigger] outcomes[i],
            check_mem,
        ) by {
            assert(i == 0);
        }
    } else {
        lemma_verdict_from(first, queue, next + 1, rest, check_mem);
        if forall|i: int| 0 <= i < rest.len() ==> accepted(#[trigger] rest[i], check_mem) {
            assert forall|i: int| 0 <= i < outcomes.len() implies accepted(
                #[trigger] outcomes[i],
                check_mem,
            ) by {
                if i > 0 {
                    assert(outcomes[i] == rest[i - 1]);
                }
            }
        } else {
            let i = choose|i: int| 0 <= i < rest.len() && !accepted(#[trigger] rest[i], check_mem);
            assert(rest[i] == outcomes[i + 1]);
        }
    }
}

/// A variant passes only where it printed what the original printed, character
/// for character, and, where memories are checked, left as many memories with
/// the same hashes behind, and equal globals at every place that both have.
/// What is kept is the variant's execution, without its machine code.
pub proof fn law_passing_executions_agree(
    original: crate::execution::ExecutionView,
    mutated: crate::execution::ExecutionView,
    check_mem: bool,
    at: int,
)
    requires
        compared(Some(original), Some(mutated), check_mem) is Some,
    ensures
        original.stdout.len() == mutated.stdout.len(),
        0 <= at < original.stdout.len() ==> original.stdout[at] == mutated.stdout[at],
        check_mem ==> original.mem_hashes.len() == mutated.mem_hashes.len(),
        check_mem && 0 <= at < original.mem_hashes.len() ==> original.mem_hashes[at]
            == mutated.mem_hashes[at],
        check_mem && 0 <= at < original.glob_vals.len() && at < mutated.glob_vals.len()
            ==> crate::value::val_eq(original.glob_vals[at], mutated.glob_vals[at]),
        ({
            let kept = compared(Some(original), Some(mutated), check_mem)->0;
            &&& kept.mem_hashes == mutated.mem_hashes
            &&& kept.glob_vals == mutated.glob_vals
            &&& kept.stdout == mutated.stdout
            &&& kept.stderr == mutated.stderr
            &&& kept.elapsed_nanos == mutated.elapsed_nanos
            &&& kept.machine_code.len() == 0
        }),
{
}

/// Executions that print the same, and leave the same memories and globals
/// behind where those are checked, pass, whatever else they differ in.
pub proof fn law_agreeing_executions_pass(
    original: crate::execution::ExecutionView,
    mutated: crate::execution::ExecutionView,
    check_mem: bool,
)
    requires
        original.stdout == mutated.stdout,
        check_mem ==> original.mem_hashes == mutated.mem_hashes,
        check_mem ==> forall|i: int|
            0 <= i < original.glob_vals.len() && i < mutated.glob_vals.len()
                ==> crate::value::val_eq(#[trigger] original.glob_vals[i], mutated.glob_vals[i]),
    ensures
        compared(Some(original), Some(mutated), check_mem) is Some,
        accepted(Executions { original: Some(original), mutated: Some(mutated) }, check_mem),
{
}

/// One difference that is looked at turns a variant down.
pub proof fn law_one_difference_is_enough(
    original: crate::execution::ExecutionView,
    mutated: crate::execution::ExecutionView,
    check_mem: bool,
)
    requires
        original.stdout != mutated.stdout || check_mem && (original.mem_hashes
            != mutated.mem_hashes || exists|i: int|
            0 <= i < original.glob_vals.len() && i < mutated.glob_vals.len()
                && !crate::value::val_eq(#[trigger] original.glob_vals[i], mutated.glob_vals[i])),
    ensures
        compared(Some(original), Some(mutated), check_mem) is None,
        !accepted(Executions { original: Some(original), mutated: Some(mutated) }, check_mem),
{
}

/// Without both executions a variant is turned down.
pub proof fn law_both_must_execute(
    original: Option<crate::execution::ExecutionView>,
    mutated: Option<crate::execution::ExecutionView>,
    check_mem: bool,
)
    requires
        original is None || mutated is None,
    ensures
        compared(original, mutated, check_mem) is None,
        !accepted(Executions { original, mutated }, check_mem),
{
}

/// Where a comparison stands after these events, one after the other.
pub open spec fn state_after(
    state: EvaluationView,
    events: Seq<EvaluationEventView>,
    check_mem: bool,
) -> EvaluationView
    decreases events.len(),
{
    if events.len() == 0 {
        state
    } else {
        evaluation_step(
            state_after(state, events.drop_last(), check_mem),
            events.last(),
            check_mem,
        ).0
    }
}

/// What is to be done after these events, the last of which has just come.
pub open spec fn action_after(
    state: EvaluationView,
    events: Seq<EvaluationEventView>,
    check_mem: bool,
) -> EvaluationActionView
    recommends
        events.len() > 0,
{
    evaluation_step(
        state_after(state, events.drop_last(), check_mem),
        events.last(),
        check_mem,
    ).1
}

/// Whether the two modules were executed and nothing told them apart.
pub open spec fn went_well(event: EvaluationEventView, check_mem: bool) -> bool {
    event matches EvaluationEventView::Executed { original, mutated } && compared(
        original,
        mutated,
        check_mem,
    ) is Some
}

/// A whole comparison with an argument generator. The two modules are executed
/// on the given arguments, then the generator is run, and then they are
/// executed on each of its argument lists, every list once and in order, as
/// long as nothing tells them apart; behind the last one the verdict is that of
/// the given arguments.
pub proof fn law_every_argument_list_is_tried(
    args: Seq<Seq<char>>,
    command: Seq<char>,
    original: Option<crate::execution::ExecutionView>,
    mutated: Option<crate::execution::ExecutionView>,
    stdout: Seq<char>,
    events: Seq<EvaluationEventView>,
    check_mem: bool,
)
    requires
        3 <= events.len() <= crate::command::output_args(stdout).len() + 3,
        events[0] is Begin,
        events[1] == (EvaluationEventView::Executed { original, mutated }),
        events[2] == (EvaluationEventView::Generated { stdout }),
        forall|i: int| 3 <= i < events.len() ==> went_well(#[trigger] events[i], check_mem),
    ensures
        ({
            let initial = EvaluationView::Initial { args, generator: Some(command) };
            let done = events.len() - 3;
            &&& action_after(initial, events.take(1), check_mem)
                == EvaluationActionView::Execute { args }
            &&& action_after(initial, events.take(2), check_mem)
                == EvaluationActionView::Generate { command: crate::text::pieces(command, ' ') }
            &&& action_after(initial, events, check_mem) == if done
                < crate::command::output_args(stdout).len() {
                EvaluationActionView::Execute { args: crate::command::output_args(stdout)[done] }
            } else {
                EvaluationActionView::Verdict(compared(original, mutated, check_mem))
            }
        }),
{
    lemma_where_a_comparison_stands(args, command, original, mutated, stdout, events, check_mem);
}

/// The first argument list on which something tells the two modules apart ends
/// a comparison, and the variant is turned down.
pub proof fn law_first_failure_turns_a_variant_down(
    args: Seq<Seq<char>>,
    command: Seq<char>,
    original: Option<crate::execution::ExecutionView>,
    mutated: Option<crate::execution::ExecutionView>,
    stdout: Seq<char>,
    events: Seq<EvaluationEventView>,
    check_mem: bool,
)
    requires
        4 <= events.len() <= crate::command::output_args(stdout).len() + 3,
        events[0] is Begin,
        events[1] == (EvaluationEventView::Executed { original, mutated }),
        events[2] == (EvaluationEventView::Generated { stdout }),
        forall|i: int| 3 <= i < events.len() - 1 ==> went_well(#[trigger] events[i], check_mem),
        events.last() is Executed,
        !went_well(events.last(), check_mem),
    ensures
        ({
            let initial = EvaluationView::Initial { args, generator: Some(command) };
            &&& action_after(initial, events, check_mem) == EvaluationActionView::Verdict(None)
            &&& state_after(initial, events, check_mem) is Over
        }),
{
    let earlier = events.drop_last();
    assert forall|i: int| 3 <= i < earlier.len() implies went_well(
        #[trigger] earlier[i],
        check_mem,
    ) by {
        assert(earlier[i] == events[i]);
    }
    lemma_where_a_comparison_stands(args, command, original, mutated, stdout, earlier, check_mem);
}

proof fn lemma_where_a_comparison_stands(
    args: Seq<Seq<char>>,
    command: Seq<char>,
    original: Option<crate::execution::ExecutionView>,
    mutated: Option<crate::execution::ExecutionView>,
    stdout: Seq<char>,
    events: Seq<EvaluationEventView>,
    check_mem: bool,
)
    requires
        3 <= events.len() <= crate::command::output_args(stdout).len() + 3,
        events[0] is Begin,
        events[1] == (EvaluationEventView::Executed { original, mutated }),
        events[2] == (EvaluationEventView::Generated { stdout }),
        forall|i: int| 3 <= i < events.len() ==> went_well(#[trigger] events[i], check_mem),
    ensures
        ({
            let initial = EvaluationView::Initial { args, generator: Some(command) };
            let first = compared(original, mutated, check_mem);
            let queue = crate::command::output_args(stdout);
            let done = events.len() - 3;
            &&& action_after(initial, events.take(1), check_mem)
                == EvaluationActionView::Execute { args }
            &&& action_after(initial, events.take(2), check_mem)
                == EvaluationActionView::Generate { command: crate::text::pieces(command, ' ') }
            &&& done < queue.len() ==> {
                &&& state_after(initial, events, check_mem) == EvaluationView::Rest {
                    first,
                    queue,
                    next: done as nat,
                }
                &&& action_after(initial, events, check_mem) == EvaluationActionView::Execute {
                    args: queue[done],
                }
            }
            &&& done == queue.len() ==> {
                &&& state_after(initial, events, check_mem) is Over
                &&& action_after(initial, events, check_mem) == EvaluationActionView::Verdict(first)
            }
        }),
    decreases events.len(),
{
    let initial = EvaluationView::Initial { args, generator: Some(command) };
    let earlier = events.drop_last();
    crate::text::law_split_then_join(crate::text::trimmed(stdout), '\n');
    reveal_with_fuel(state_after, 4);
    assert(events.take(1).drop_last() =~= Seq::empty());
    assert(events.take(2).drop_last() =~= events.take(1));
    assert(events.take(3).drop_last() =~= events.take(2));
    assert(state_after(initial, events.take(1), check_mem) == EvaluationView::First {
        generator: Some(command),
    });
    if events.len() == 3 {
        assert(events.take(3) =~= events);
        assert(earlier =~= events.take(2));
    } else {
        assert(events.take(1) =~= earlier.take(1));
        assert(events.take(2) =~= earlier.take(2));
        assert forall|i: int| 3 <= i < earlier.len() implies went_well(
            #[trigger] earlier[i],
            check_mem,
        ) by {
            assert(earlier[i] == events[i]);
        }
        lemma_where_a_comparison_stands(
            args,
            command,
            original,
            mutated,
            stdout,
            earlier,
            check_mem,
        );
        assert(went_well(events.last(), check_mem));
    }
}

/// The words of the generator's command, put back together, are the command.
pub proof fn law_generator_is_run_as_given(
    command: Seq<char>,
    original: Option<crate::execution::ExecutionView>,
    mutated: Option<crate::execution::ExecutionView>,
    check_mem: bool,
)
    ensures
        ({
            let action = evaluation_step(
                EvaluationView::First { generator: Some(command) },
                EvaluationEventView::Executed { original, mutated },
                check_mem,
            ).1;
            &&& action is Generate
            &&& crate::text::joined(action->command, ' ') == command
            &&& forall|i: int|
                0 <= i < action->command.len() ==> !(#[trigger] action->command[i]).contains(' ')
        }),
{
    crate::text::law_split_then_join(command, ' ');
    crate::text::law_pieces_hold_no_separator(command, ' ');
}

/// Every comparison that has not come to its verdict can be taken further, with
/// any outcome of what is to be done.
pub proof fn law_comparison_can_be_taken_further(
    state: EvaluationView,
    event: EvaluationEventView,
    check_mem: bool,
    original: Option<crate::execution::ExecutionView>,
    mutated: Option<crate::execution::ExecutionView>,
    stdout: Seq<char>,
)
    requires
        evaluation_expects(state, event),
    ensures
        ({
            let (next, action) = evaluation_step(state, event, check_mem);
            match action {
                EvaluationActionView::Execute { .. } => evaluation_expects(
                    next,
                    EvaluationEventView::Executed { original, mutated },
                ),
                EvaluationActionView::Generate { .. } => evaluation_expects(
                    next,
                    EvaluationEventView::Generated { stdout },
                ),
                EvaluationActionView::Verdict(_) => next is Over,
            }
        }),
{
    if let EvaluationEventView::Generated { stdout } = event {
        crate::text::law_split_then_join(crate::text::trimmed(stdout), '\n');
    }
}

/// What is to be done, and what came of it, is seen as it is.
pub proof fn law_comparison_is_seen_as_it_is(action: EvaluationAction, event: EvaluationEvent)
    ensures
        match action {
            EvaluationAction::Execute { args } => action@ is Execute && action@->args
                == crate::text::texts(args@),
            EvaluationAction::Generate { command } => action@ is Generate && action@->command
                == crate::text::texts(command@),
            EvaluationAction::Verdict(Some(execution)) => action@
                == EvaluationActionView::Verdict(Some(execution@)),
            EvaluationAction::Verdict(None) => action@ == EvaluationActionView::Verdict(None),
        },
        match event {
            EvaluationEvent::Begin => event@ is Begin,
            EvaluationEvent::Executed { original, mutated } => event@ is Executed
                && event@->original == crate::execution::execution_view(original)
                && event@->mutated == crate::execution::execution_view(mutated),
            EvaluationEvent::Generated { stdout } => event@ is Generated && event@->stdout
                == stdout@,
        },
{
}

} // verus!
