use stacking::execution::{
    _rdtsc, assert_same_state, execute_single, fuel_limit, hash_memory, ExecutionAction,
    ExecutionEvent, ExecutionStage, Export,
};
use stacking::value::Val;
use std::collections::hash_map::DefaultHasher;
use std::hash::{Hash, Hasher};

fn standard_hash(bytes: &[u8]) -> u64 {
    let mut hasher = DefaultHasher::default();
    bytes.hash(&mut hasher);
    hasher.finish()
}

#[test]
fn memory_hashes_are_those_of_the_standard_library() {
    for bytes in [vec![], vec![0u8], vec![1, 2, 3], vec![7; 65536]] {
        assert_eq!(hash_memory(&bytes), standard_hash(&bytes));
    }
    assert_ne!(hash_memory(&vec![0]), hash_memory(&vec![0, 0]));
}

#[test]
fn state_keeps_the_order_of_the_exports() {
    let exports = vec![
        Export::Other,
        Export::Memory(vec![1]),
        Export::Global(Val::I32(5)),
        Export::Memory(vec![2]),
        Export::Global(Val::I64(6)),
    ];
    let (memories, globals) = assert_same_state(&exports);
    assert_eq!(memories, vec![standard_hash(&[1]), standard_hash(&[2])]);
    assert_eq!(globals.len(), 2);
    assert!(matches!(globals[0], Val::I32(5)));
    assert!(matches!(globals[1], Val::I64(6)));
}

#[test]
fn no_exports_no_state() {
    let (memories, globals) = assert_same_state(&vec![]);
    assert!(memories.is_empty());
    assert!(globals.is_empty());
}

#[test]
fn fuel_is_metered_only_where_given() {
    assert_eq!(fuel_limit(0), None);
    assert_eq!(fuel_limit(1), Some(1));
    assert_eq!(fuel_limit(u64::MAX), Some(u64::MAX));
}

#[test]
fn the_counter_has_two_halves() {
    assert_eq!(_rdtsc(0, 0), 0);
    assert_eq!(_rdtsc(7, 0), 7);
    assert_eq!(_rdtsc(1, 2), 0x2_0000_0001);
    assert_eq!(_rdtsc(u32::MAX, u32::MAX), u64::MAX);
}

fn read_stage(machine_code: bool) -> ExecutionStage {
    let stage = ExecutionStage::Compiling { machine_code };
    let (stage, action) = execute_single(stage, ExecutionEvent::Compiled { ok: true });
    assert!(matches!(action, ExecutionAction::Instantiate));
    let (stage, action) = execute_single(stage, ExecutionEvent::Instantiated { ok: true });
    assert!(matches!(action, ExecutionAction::Locate));
    let (stage, action) = execute_single(stage, ExecutionEvent::Located { found: true });
    assert!(matches!(action, ExecutionAction::Call));
    let (stage, action) = execute_single(stage, ExecutionEvent::Called { elapsed_nanos: 42 });
    assert!(matches!(action, ExecutionAction::Read));
    stage
}

#[test]
fn an_execution_runs_to_its_result() {
    for asked in [false, true] {
        let read = ExecutionEvent::Read {
            stdout: Some("out".to_string()),
            stderr: Some("err".to_string()),
        };
        let (stage, action) = execute_single(read_stage(asked), read);
        match action {
            ExecutionAction::Collect { machine_code } => assert_eq!(machine_code, asked),
            other => panic!("{:?}", other),
        }
        let collected = ExecutionEvent::Collected {
            exports: vec![Export::Memory(vec![9]), Export::Global(Val::I32(1))],
            machine_code: vec![1, 2, 3],
        };
        let (stage, action) = execute_single(stage, collected);
        assert!(matches!(stage, ExecutionStage::Over));
        match action {
            ExecutionAction::Finish(Some(result)) => {
                assert_eq!(result.mem_hashes, vec![standard_hash(&[9])]);
                assert_eq!(result.glob_vals.len(), 1);
                assert_eq!(result.stdout, "out");
                assert_eq!(result.stderr, "err");
                assert_eq!(result.elapsed_nanos, 42);
                let expected: Vec<u8> = if asked { vec![1, 2, 3] } else { vec![] };
                assert_eq!(result.machine_code, expected);
            }
            other => panic!("{:?}", other),
        }
    }
}

#[test]
fn executions_that_come_to_nothing() {
    let compiling = ExecutionStage::Compiling { machine_code: true };
    let instantiating = ExecutionStage::Instantiating { machine_code: true };
    let locating = ExecutionStage::Locating { machine_code: true };
    let ends = vec![
        execute_single(compiling, ExecutionEvent::Compiled { ok: false }),
        execute_single(instantiating, ExecutionEvent::Instantiated { ok: false }),
        execute_single(locating, ExecutionEvent::Located { found: false }),
        execute_single(
            read_stage(true),
            ExecutionEvent::Read { stdout: None, stderr: Some(String::new()) },
        ),
        execute_single(
            read_stage(true),
            ExecutionEvent::Read { stdout: Some(String::new()), stderr: None },
        ),
    ];
    for (stage, action) in ends {
        assert!(matches!(stage, ExecutionStage::Over));
        assert!(matches!(action, ExecutionAction::Finish(None)));
    }
}
