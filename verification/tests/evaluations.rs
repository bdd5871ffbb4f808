use stacking::evaluation::{
    assert_same_evaluation, assert_same_evaluation_single, Evaluation, EvaluationAction,
    EvaluationEvent,
};
use stacking::execution::ExecutionResult;
use stacking::value::Val;

fn execution(stdout: &str, memories: Vec<u64>, globals: Vec<Val>) -> ExecutionResult {
    ExecutionResult {
        mem_hashes: memories,
        glob_vals: globals,
        stdout: stdout.to_string(),
        stderr: "noise".to_string(),
        elapsed_nanos: 5,
        machine_code: vec![1],
    }
}

fn printed(stdout: &str) -> Option<ExecutionResult> {
    Some(execution(stdout, vec![], vec![]))
}

fn executed(original: &str, mutated: &str) -> EvaluationEvent {
    EvaluationEvent::Executed { original: printed(original), mutated: printed(mutated) }
}

#[test]
fn same_output_passes_without_machine_code() {
    let mut mutated = execution("a", vec![2], vec![]);
    mutated.elapsed_nanos = 9;
    mutated.stderr = "other".to_string();
    let original = execution("a", vec![1], vec![]);
    let result = assert_same_evaluation_single(Some(original), Some(mutated), false).unwrap();
    assert_eq!(result.stdout, "a");
    assert_eq!(result.stderr, "other");
    assert_eq!(result.mem_hashes, vec![2]);
    assert_eq!(result.elapsed_nanos, 9);
    assert!(result.machine_code.is_empty());
}

#[test]
fn different_output_fails() {
    assert!(assert_same_evaluation_single(printed("a"), printed("b"), false).is_none());
    assert!(assert_same_evaluation_single(printed("a"), printed("a "), false).is_none());
}

#[test]
fn a_missing_execution_fails() {
    assert!(assert_same_evaluation_single(None, printed("a"), false).is_none());
    assert!(assert_same_evaluation_single(printed("a"), None, false).is_none());
    assert!(assert_same_evaluation_single(None, None, true).is_none());
}

fn passes(
    first: (Vec<u64>, Vec<Val>),
    second: (Vec<u64>, Vec<Val>),
    check_mem: bool,
) -> bool {
    assert_same_evaluation_single(
        Some(execution("", first.0, first.1)),
        Some(execution("", second.0, second.1)),
        check_mem,
    )
    .is_some()
}

#[test]
fn memories_are_compared_where_asked_for() {
    assert!(passes((vec![1], vec![]), (vec![2], vec![]), false));
    assert!(!passes((vec![1], vec![]), (vec![2], vec![]), true));
    assert!(!passes((vec![1], vec![]), (vec![1, 1], vec![]), true));
    assert!(passes((vec![1, 2], vec![]), (vec![1, 2], vec![]), true));
}

#[test]
fn globals_are_compared_as_far_as_both_go() {
    let nan = Val::F32(f32::NAN.to_bits());
    let other_nan = Val::F32(f32::NAN.to_bits() + 1);
    assert!(passes((vec![], vec![nan]), (vec![], vec![other_nan]), true));
    assert!(!passes((vec![], vec![Val::I32(1)]), (vec![], vec![Val::I32(2)]), true));
    assert!(passes((vec![], vec![Val::I32(1)]), (vec![], vec![Val::I32(2)]), false));
    assert!(passes((vec![], vec![Val::I32(1)]), (vec![], vec![Val::I32(1), Val::I32(3)]), true));
    assert!(passes((vec![], vec![]), (vec![], vec![Val::I32(3)]), true));
}

#[test]
fn the_comparison_does_not_favour_a_side() {
    let sides = vec![
        (vec![1], vec![Val::I32(1)]),
        (vec![1], vec![Val::I32(2)]),
        (vec![2], vec![Val::I32(1)]),
        (vec![], vec![]),
    ];
    for a in &sides {
        assert!(passes(a.clone(), a.clone(), true));
        for b in &sides {
            let there = passes(a.clone(), b.clone(), true);
            assert_eq!(there, passes(b.clone(), a.clone(), true));
            if there {
                assert!(passes(a.clone(), b.clone(), false));
            }
        }
    }
}

fn begin(generator: Option<&str>) -> Evaluation {
    let state = Evaluation::Initial {
        args: vec!["prog".to_string(), "00".to_string()],
        generator: generator.map(String::from),
    };
    let (state, action) = assert_same_evaluation(state, EvaluationEvent::Begin, false);
    match action {
        EvaluationAction::Execute { args } => assert_eq!(args, vec!["prog", "00"]),
        other => panic!("{:?}", other),
    }
    state
}

#[test]
fn given_arguments_decide_alone_without_a_generator() {
    let (state, action) = assert_same_evaluation(begin(None), executed("a", "a"), false);
    assert!(matches!(state, Evaluation::Over));
    assert!(matches!(action, EvaluationAction::Verdict(Some(_))));
    let (_, action) = assert_same_evaluation(begin(None), executed("a", "b"), false);
    assert!(matches!(action, EvaluationAction::Verdict(None)));
}

fn generated(first: EvaluationEvent, stdout: &str) -> (Evaluation, EvaluationAction) {
    let (state, action) = assert_same_evaluation(begin(Some("python gen.py")), first, false);
    match action {
        EvaluationAction::Generate { command } => assert_eq!(command, vec!["python", "gen.py"]),
        other => panic!("{:?}", other),
    }
    let event = EvaluationEvent::Generated { stdout: stdout.to_string() };
    assert_same_evaluation(state, event, false)
}

#[test]
fn every_generated_list_is_tried() {
    let (state, action) = generated(executed("one", "one"), "1 2\n3\n");
    match action {
        EvaluationAction::Execute { args } => assert_eq!(args, vec!["first", "1", "2"]),
        other => panic!("{:?}", other),
    }
    let (state, action) = assert_same_evaluation(state, executed("x", "x"), false);
    match action {
        EvaluationAction::Execute { args } => assert_eq!(args, vec!["first", "3"]),
        other => panic!("{:?}", other),
    }
    let (state, action) = assert_same_evaluation(state, executed("y", "y"), false);
    assert!(matches!(state, Evaluation::Over));
    match action {
        EvaluationAction::Verdict(Some(result)) => assert_eq!(result.stdout, "one"),
        other => panic!("{:?}", other),
    }
}

#[test]
fn one_differing_list_is_enough() {
    let (state, _) = generated(executed("one", "one"), "1\n2\n3");
    let (state, action) = assert_same_evaluation(state, executed("x", "y"), false);
    assert!(matches!(state, Evaluation::Over));
    assert!(matches!(action, EvaluationAction::Verdict(None)));
}

#[test]
fn the_given_arguments_still_decide_at_the_end() {
    let (state, _) = generated(executed("one", "two"), "1");
    let (_, action) = assert_same_evaluation(state, executed("x", "x"), false);
    assert!(matches!(action, EvaluationAction::Verdict(None)));
}

#[test]
fn a_generated_list_without_an_execution_fails() {
    let (state, _) = generated(executed("one", "one"), "1");
    let event = EvaluationEvent::Executed { original: printed("x"), mutated: None };
    let (_, action) = assert_same_evaluation(state, event, false);
    assert!(matches!(action, EvaluationAction::Verdict(None)));
}
