use stacking::digest::{content_hash, content_hash_text};
use stacking::execution::ExecutionResult;
use stacking::report::{
    ask_oracle, compile, original_hash, report, report_differing, save_code, save_variant,
    weigh_code, Report, ReportAction, ReportError, ReportEvent, Reporter,
};
use stacking::stacking::Stacking;
use stacking::stat::{nanos_since, Stat, StatRecord};
use std::time::{Duration, Instant, SystemTime, UNIX_EPOCH};

// (module (func (export "_start") i32.const 1 drop))
fn sample() -> Vec<u8> {
    let mut wasm: Vec<u8> = b"\0asm\x01\0\0\0".to_vec();
    wasm.extend([1, 4, 1, 0x60, 0, 0]);
    wasm.extend([3, 2, 1, 0]);
    wasm.extend([7, 10, 1, 6]);
    wasm.extend(b"_start");
    wasm.extend([0, 0]);
    wasm.extend([10, 7, 1, 5, 0, 0x41, 1, 0x1a, 0x0b]);
    wasm
}

fn search(chaos_mode: bool, save_compiling: bool, oracle: Option<&str>) -> Stacking {
    let now = SystemTime::now().duration_since(UNIX_EPOCH).unwrap().as_nanos();
    Stacking::new(
        sample(),
        2,
        1,
        0,
        format!("/tmp/stacking_report_{}", now),
        vec![],
        false,
        0,
        chaos_mode,
        false,
        10,
        save_compiling,
        false,
        None,
        oracle.map(String::from),
        None,
    )
    .unwrap()
}

fn reporter(report_only_if_diff_mc: bool) -> Reporter {
    Reporter {
        output: "o.wasm".to_string(),
        report_only_if_diff_mc,
        original_hash: original_hash(&None),
        stat: Stat::new(),
    }
}

fn initial() -> Report {
    Report::Initial { variant: sample(), parent: vec![1], index: 3, count: 12 }
}

fn saved(search: &mut Stacking, reporter: &mut Reporter) -> (Report, String) {
    match report(search, reporter, initial(), ReportEvent::Done) {
        Ok((state, ReportAction::Write { name, contents })) => {
            assert_eq!(contents, sample());
            (state, name)
        }
        other => panic!("{:?}", other),
    }
}

#[test]
fn stacked_variants_are_saved_under_their_index() {
    let (mut search, mut reporter) = (search(false, false, None), reporter(false));
    let (state, name) = saved(&mut search, &mut reporter);
    assert_eq!(name, "o.wasm.3.wasm");
    assert_eq!(reporter.stat.record().generated_binaries, 0);
    let (state, action) = report(&mut search, &mut reporter, state, ReportEvent::Done).unwrap();
    assert!(matches!(state, Report::Over));
    assert!(matches!(action, ReportAction::Continue));
    assert_eq!(reporter.stat.record().generated_binaries, 1);
}

#[test]
fn spread_variants_are_saved_under_their_hashes() {
    let (mut search, mut reporter) = (search(true, false, None), reporter(false));
    let (_, name) = saved(&mut search, &mut reporter);
    let expected = format!(
        "o.wasm.{}.{}.chaos.wasm",
        content_hash_text(&vec![1]),
        content_hash_text(&sample())
    );
    assert_eq!(name, expected);
}

#[test]
fn machine_code_is_saved_where_asked_for() {
    let (mut search, mut reporter) = (search(false, true, None), reporter(false));
    let (state, _) = saved(&mut search, &mut reporter);
    let (state, action) = report(&mut search, &mut reporter, state, ReportEvent::Done).unwrap();
    match action {
        ReportAction::Write { name, contents } => {
            assert_eq!(name, "o.wasm.3.cwasm");
            assert!(!contents.is_empty());
            assert_ne!(contents, sample());
        }
        other => panic!("{:?}", other),
    }
    let (_, action) = report(&mut search, &mut reporter, state, ReportEvent::Done).unwrap();
    assert!(matches!(action, ReportAction::Continue));
    assert_eq!(reporter.stat.record().unique_machine_codes, 0);
}

fn ask(search: &mut Stacking, reporter: &mut Reporter) -> (Report, ReportAction) {
    let (mut state, _) = saved(search, reporter);
    loop {
        match report(search, reporter, state, ReportEvent::Done).unwrap() {
            (next, ReportAction::Write { .. }) => state = next,
            (next, action) => return (next, action),
        }
    }
}

#[test]
fn the_oracle_is_given_the_saved_file() {
    for save_compiling in [false, true] {
        let mut search = search(false, save_compiling, Some("bash oracle.sh"));
        let mut reporter = reporter(false);
        let (state, action) = ask(&mut search, &mut reporter);
        assert!(matches!(state, Report::Asking { .. }));
        match action {
            ReportAction::CallOracle { command } => {
                assert_eq!(command, vec!["bash", "oracle.sh", "o.wasm.3.wasm"])
            }
            other => panic!("{:?}", other),
        }
    }
}

#[test]
fn the_oracle_ends_the_search_with_exit_code_one() {
    for (code, stops) in [(0, false), (1, true), (2, false)] {
        let mut search = search(false, true, Some("oracle"));
        let mut reporter = reporter(false);
        let (state, _) = ask(&mut search, &mut reporter);
        let event = ReportEvent::OracleExited { code };
        let (state, action) = report(&mut search, &mut reporter, state, event).unwrap();
        assert!(matches!(state, Report::Over));
        if stops {
            assert!(matches!(action, ReportAction::Stop));
        } else {
            assert!(matches!(action, ReportAction::Continue));
        }
    }
}

#[test]
fn statistics_are_saved_among_random_parents() {
    let mut search = search(true, true, Some("oracle"));
    let mut reporter = reporter(true);
    let (state, _) = ask(&mut search, &mut reporter);
    let event = ReportEvent::OracleExited { code: 1 };
    let (state, action) = report(&mut search, &mut reporter, state, event).unwrap();
    match action {
        ReportAction::SaveStat { name, record } => {
            assert_eq!(name, "o.wasm.chaos.json");
            let expected = StatRecord {
                total_rotations: 0,
                elapsed_nanos: record.elapsed_nanos,
                generated_binaries: 12,
                unique_machine_codes: 1,
            };
            assert_eq!(record, expected);
            assert_eq!(reporter.stat.record(), expected);
        }
        other => panic!("{:?}", other),
    }
    let (state, action) = report(&mut search, &mut reporter, state, ReportEvent::Done).unwrap();
    assert!(matches!(state, Report::Over));
    assert!(matches!(action, ReportAction::Stop));
}

#[test]
fn the_oracle_is_asked_about_a_machine_code_once() {
    for (chaos_mode, save_compiling) in [(false, false), (true, false), (true, true)] {
        let mut search = search(chaos_mode, save_compiling, Some("oracle"));
        let mut reporter = reporter(true);
        let (_, action) = ask(&mut search, &mut reporter);
        assert!(matches!(action, ReportAction::CallOracle { .. }));
        assert_eq!(reporter.stat.record().unique_machine_codes, 1);
        let (_, action) = ask(&mut search, &mut reporter);
        assert!(matches!(action, ReportAction::Continue));
        assert_eq!(reporter.stat.record().unique_machine_codes, 1);
        assert_eq!(reporter.stat.record().generated_binaries, 2);
    }
}

#[test]
fn a_variant_with_the_originals_machine_code_is_not_reported() {
    for save_compiling in [false, true] {
        let mut search = search(true, save_compiling, Some("oracle"));
        let mut reporter = reporter(true);
        reporter.original_hash = content_hash(&compile(&sample()).unwrap());
        let (state, action) =
            report(&mut search, &mut reporter, initial(), ReportEvent::Done).unwrap();
        assert!(matches!(state, Report::Over));
        assert!(matches!(action, ReportAction::Continue));
        assert_eq!(reporter.stat.record().unique_machine_codes, 0);
        assert_eq!(reporter.stat.record().generated_binaries, 0);
    }
}

#[test]
fn any_machine_code_is_reported_where_it_does_not_matter() {
    let mut search = search(false, false, Some("oracle"));
    let mut reporter = reporter(false);
    reporter.original_hash = content_hash(&compile(&sample()).unwrap());
    let (_, action) = ask(&mut search, &mut reporter);
    assert!(matches!(action, ReportAction::CallOracle { .. }));
    assert_eq!(reporter.stat.record().generated_binaries, 1);
}

#[test]
fn machine_code_is_compiled_once() {
    let mut search = search(false, true, None);
    let mut reporter = reporter(true);
    let (state, _) = saved(&mut search, &mut reporter);
    let kept = match &state {
        Report::Saving { code, news, .. } => {
            assert!(*news);
            code.clone().unwrap()
        }
        other => panic!("{:?}", other),
    };
    match report(&mut search, &mut reporter, state, ReportEvent::Done) {
        Ok((_, ReportAction::Write { name, contents })) => {
            assert_eq!(name, "o.wasm.3.cwasm");
            assert_eq!(contents, kept);
        }
        other => panic!("{:?}", other),
    }
}

#[test]
fn what_is_no_module_is_not_compiled() {
    assert_eq!(compile(&vec![1, 2, 3]), Err(ReportError::NotCompiled));
    let (mut search, mut reporter) = (search(false, true, None), reporter(false));
    let (state, _) = save_variant(vec![0], None, "b".to_string(), 1, false);
    let result = report(&mut search, &mut reporter, state, ReportEvent::Done);
    assert!(matches!(result, Err(ReportError::NotCompiled)));
    reporter.report_only_if_diff_mc = true;
    let state = Report::Initial { variant: vec![0], parent: vec![], index: 0, count: 0 };
    let result = report(&mut search, &mut reporter, state, ReportEvent::Done);
    assert!(matches!(result, Err(ReportError::NotCompiled)));
}

#[test]
fn compiling_gives_machine_code() {
    let code = compile(&sample()).unwrap();
    assert_ne!(code, sample());
    assert!(code.len() > sample().len());
}

#[test]
fn the_reference_hash_comes_from_the_original() {
    assert_eq!(original_hash(&None), content_hash(&b"empty".to_vec()));
    let execution = ExecutionResult {
        mem_hashes: vec![],
        glob_vals: vec![],
        stdout: String::new(),
        stderr: String::new(),
        elapsed_nanos: 0,
        machine_code: vec![5, 6],
    };
    assert_eq!(original_hash(&Some(execution)), content_hash(&vec![5, 6]));
}

#[test]
fn statistics_start_at_zero() {
    let stat = Stat::new();
    assert_eq!(
        stat.record(),
        StatRecord {
            total_rotations: 0,
            elapsed_nanos: 0,
            generated_binaries: 0,
            unique_machine_codes: 0,
        }
    );
}

#[test]
fn statistics_count() {
    let mut stat = Stat::new();
    stat.count_binary();
    stat.count_binary();
    stat.count_machine_code();
    assert_eq!(stat.record().generated_binaries, 2);
    assert_eq!(stat.record().unique_machine_codes, 1);
    stat.set_generated_binaries(40);
    assert_eq!(stat.record().generated_binaries, 40);
    assert_eq!(stat.generated_binaries, 40);
}

#[test]
fn a_paused_timer_stands_still() {
    let mut stat = Stat::new();
    stat.pause();
    stat.pause();
    let before = stat.get_nanos();
    let start = SystemTime::now();
    while start.elapsed().unwrap().as_millis() < 30 {}
    assert_eq!(stat.get_nanos(), before);
    assert_eq!(stat.serialize().elapsed_nanos, before);
    stat.unpause();
    let start = SystemTime::now();
    while start.elapsed().unwrap().as_millis() < 30 {}
    assert!(stat.get_nanos() > before);
    let record = stat.serialize();
    assert!(record.elapsed_nanos > before);
    assert_eq!(stat.record(), record);
}

#[test]
fn what_differs_is_saved_and_news_is_counted() {
    let mut reporter = reporter(true);
    for (differs, news, codes) in [(false, false, 0), (true, false, 0), (true, true, 1)] {
        let base = "b".to_string();
        let (state, action) =
            report_differing(&mut reporter, vec![1], vec![2], base, 3, differs, news);
        assert_eq!(reporter.stat.record().unique_machine_codes, codes);
        assert_eq!(reporter.stat.record().generated_binaries, 0);
        if differs {
            match state {
                Report::Saving { variant, code, base, count, news: held } => {
                    assert_eq!(variant, vec![1]);
                    assert_eq!(code, Some(vec![2]));
                    assert_eq!(base, "b");
                    assert_eq!(count, 3);
                    assert_eq!(held, news);
                }
                other => panic!("{:?}", other),
            }
            assert!(matches!(action, ReportAction::Write { .. }));
        } else {
            assert!(matches!(state, Report::Over));
            assert!(matches!(action, ReportAction::Continue));
        }
    }
}

#[test]
fn machine_codes_are_told_apart_by_their_contents() {
    let mut search = search(true, true, Some("oracle"));
    let mut reporter = reporter(true);
    for (code, held) in [(vec![1u8], true), (vec![2], true), (vec![1], false)] {
        let base = "b".to_string();
        let (state, _) =
            weigh_code(&mut search, &mut reporter, sample(), code, base, 1).unwrap();
        match state {
            Report::Saving { news, .. } => assert_eq!(news, held),
            other => panic!("{:?}", other),
        }
    }
    let base = "b".to_string();
    let (_, action) =
        weigh_code(&mut search, &mut reporter, sample(), b"empty".to_vec(), base, 1).unwrap();
    assert!(matches!(action, ReportAction::Continue));
    assert_eq!(reporter.stat.record().unique_machine_codes, 2);
}

#[test]
fn nobody_is_asked_without_an_oracle() {
    let search = search(false, false, None);
    let mut reporter = reporter(false);
    let (state, action) = ask_oracle(&search, &mut reporter, &"b".to_string(), 1, true);
    assert!(matches!(state, Report::Over));
    assert!(matches!(action, ReportAction::Continue));
}

#[test]
fn machine_code_goes_beside_the_variant() {
    let (state, action) = save_code(vec![1, 2], "o.7".to_string(), 4, true);
    assert!(matches!(state, Report::SavingCode { count: 4, news: true, .. }));
    match action {
        ReportAction::Write { name, contents } => {
            assert_eq!(name, "o.7.cwasm");
            assert_eq!(contents, vec![1, 2]);
        }
        other => panic!("{:?}", other),
    }
}

#[test]
fn reports_go_to_different_files() {
    let mut names: Vec<String> = vec![];
    for chaos_mode in [false, true] {
        for (index, parent) in [(1usize, 1u8), (11, 2), (111, 3)] {
            let mut search = search(chaos_mode, false, None);
            let mut reporter = reporter(false);
            let state = Report::Initial {
                variant: vec![parent + 10],
                parent: vec![parent],
                index,
                count: 0,
            };
            match report(&mut search, &mut reporter, state, ReportEvent::Done) {
                Ok((_, ReportAction::Write { name, .. })) => names.push(name),
                other => panic!("{:?}", other),
            }
        }
    }
    for i in 0..names.len() {
        for j in 0..i {
            assert_ne!(names[i], names[j]);
        }
    }
}

#[test]
fn time_is_measured_from_the_start() {
    let start = Instant::now();
    assert_eq!(nanos_since(start + Duration::new(2, 5), start), 2_000_000_005);
    assert_eq!(nanos_since(start, start), 0);
    assert_eq!(nanos_since(start, start + Duration::from_secs(1)), 0);
}

#[test]
fn counting_leaves_a_paused_timer_alone() {
    let mut stat = Stat::new();
    stat.pause();
    let before = stat.get_nanos();
    stat.count_binary();
    stat.count_machine_code();
    stat.set_generated_binaries(3);
    stat.pause();
    assert_eq!(stat.get_nanos(), before);
    assert_eq!(stat.serialize().elapsed_nanos, before);
    assert_eq!(stat.get_nanos(), before);
}

fn wait(millis: u128) {
    let start = SystemTime::now();
    while start.elapsed().unwrap().as_millis() < millis {}
}

#[test]
fn a_paused_span_is_not_counted() {
    let mut stat = Stat::new();
    wait(20);
    stat.pause();
    let standing = stat.get_nanos();
    assert!(standing >= 10_000_000);
    wait(600);
    stat.unpause();
    let resumed = stat.get_nanos();
    assert!(resumed >= standing);
    assert!(resumed < standing + 500_000_000);
    wait(20);
    stat.pause();
    assert!(stat.get_nanos() >= standing + 10_000_000);
}

#[test]
fn the_timer_never_goes_back() {
    let mut stat = Stat::new();
    let mut last = 0;
    for _ in 0..1000 {
        let nanos = stat.get_nanos();
        assert!(nanos >= last);
        last = nanos;
    }
    assert!(stat.serialize().elapsed_nanos >= last);
}

#[test]
fn the_saved_time_is_the_one_on_the_paused_timer() {
    let mut search = search(true, true, Some("oracle"));
    let mut reporter = reporter(false);
    let (state, _) = ask(&mut search, &mut reporter);
    let standing = reporter.stat.get_nanos();
    wait(20);
    let event = ReportEvent::OracleExited { code: 1 };
    match report(&mut search, &mut reporter, state, event) {
        Ok((_, ReportAction::SaveStat { record, .. })) => {
            assert_eq!(record.elapsed_nanos, standing)
        }
        other => panic!("{:?}", other),
    }
}
