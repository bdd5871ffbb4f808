use stacking::cache::{Cache, CacheError};
use stacking::digest::content_hash;
use stacking::evaluation::Evaluation;
use stacking::execution::ExecutionResult;
use stacking::mutation::MutationError;
use stacking::record::{decode_record, encode_record};
use stacking::stacking::{
    is_new_code, is_worth_trying, swap, variants_limit, Consideration, Round, RoundAction,
    RoundEvent, Stacking, StackingError,
};
use rand::{Rng, SeedableRng};
use std::time::{SystemTime, UNIX_EPOCH};

// (module (func (export "_start") i32.const 1 drop))
fn sample() -> Vec<u8> {
    let mut wasm: Vec<u8> = b"\0asm\x01\0\0\0".to_vec();
    wasm.extend([1, 4, 1, 0x60, 0, 0]);
    wasm.extend([3, 2, 1, 0]);
    wasm.extend([7, 10, 1, 6]);
    wasm.extend(b"_start");
    wasm.extend([0, 0]);
    wasm.extend([10, 7, 1, 5, 0, 0x41, 1, 0x1a, 0x0b]);
    wasm
}

fn fresh_path(name: &str) -> String {
    let now = SystemTime::now().duration_since(UNIX_EPOCH).unwrap().as_nanos();
    format!("/tmp/stacking_search_{}_{}", name, now)
}

fn state() -> Option<ExecutionResult> {
    Some(ExecutionResult {
        mem_hashes: vec![],
        glob_vals: vec![],
        stdout: String::new(),
        stderr: String::new(),
        elapsed_nanos: 1,
        machine_code: vec![1],
    })
}

fn search(
    path: &str,
    chaos_mode: bool,
    check_io: bool,
    step: usize,
    original_state: Option<ExecutionResult>,
) -> Stacking {
    Stacking::new(
        sample(),
        2,
        step,
        0,
        path.to_string(),
        vec!["prog".to_string()],
        check_io,
        0,
        chaos_mode,
        false,
        10,
        false,
        false,
        Some("gen".to_string()),
        None,
        original_state,
    )
    .unwrap()
}

/// A round with at least one variant.
fn fruitful_round(search: &Stacking) -> (u64, Round) {
    for seed in 0..200 {
        if let Ok(round) = search.begin_with(seed) {
            let path = fresh_path("probe");
            let mut probe = self::search(&path, false, false, 1, None);
            let mut probed = probe.begin_with(seed).unwrap();
            if let Ok(RoundAction::Report { .. }) = probe.next(&mut probed, RoundEvent::Resume) {
                return (seed, round);
            }
        }
    }
    panic!("no seed makes a variant");
}

#[test]
fn the_limit_can_be_chosen_among_random_parents_only() {
    assert_eq!(variants_limit(true, 3), 3);
    assert_eq!(variants_limit(true, 0), 0);
    assert_eq!(variants_limit(false, 3), 10);
}

#[test]
fn swapping_puts_the_variant_in_place() {
    let mut current: Vec<u8> = vec![1];
    swap(&mut current, vec![2, 3]);
    assert_eq!(current, vec![2, 3]);
}

#[test]
fn a_new_search_is_at_its_start() {
    let search = search(&fresh_path("new"), false, false, 7, state());
    assert_eq!(search.index, 0);
    assert_eq!(search.step, 7);
    assert_eq!(search.index(), 0);
    assert_eq!(search.step(), 7);
    assert_eq!(search.current(), &sample());
    assert_eq!(search.original(), &sample());
    assert!(!search.finished());
    assert!(!search.chaos_mode());
    assert!(!search.save_compiling());
    assert_eq!(search.oracle(), &None);
    assert_eq!(search.original_state().as_ref().unwrap().machine_code, vec![1]);
    match search.evaluation() {
        Evaluation::Initial { args, generator } => {
            assert_eq!(args, vec!["prog"]);
            assert_eq!(generator, Some("gen".to_string()));
        }
        other => panic!("{:?}", other),
    }
}

#[test]
fn a_search_needs_its_caches() {
    let opened = Stacking::new(
        sample(),
        1,
        1,
        0,
        "/dev/null/cache".to_string(),
        vec![],
        false,
        0,
        false,
        false,
        10,
        false,
        false,
        None,
        None,
        None,
    );
    assert!(matches!(opened, Err(StackingError::Cache(CacheError::Open))));
}

#[test]
fn a_search_needs_a_module() {
    let mut search = Stacking::new(
        vec![1, 2, 3],
        1,
        1,
        0,
        fresh_path("module"),
        vec![],
        false,
        0,
        false,
        false,
        10,
        false,
        false,
        None,
        None,
        None,
    )
    .unwrap();
    assert!(matches!(search.begin_valid(), Err(MutationError::InvalidModule)));
    assert!(matches!(search.begin_with(0), Err(MutationError::NotMutated)));
}

#[test]
fn stacking_takes_one_variant_of_a_round() {
    let mut search = search(&fresh_path("one"), false, false, 1, None);
    let (_, mut round) = fruitful_round(&search);
    match search.next(&mut round, RoundEvent::Resume) {
        Ok(RoundAction::Report { variant, parent, count }) => {
            assert_eq!(parent, sample());
            assert_eq!(count, 1);
            assert_eq!(search.current(), &variant);
            assert_ne!(variant, sample());
        }
        other => panic!("{:?}", other),
    }
    assert_eq!(search.index, 1);
    assert!(matches!(search.next(&mut round, RoundEvent::Resume), Ok(RoundAction::Finish)));
    assert_eq!(search.index, 1);
}

#[test]
fn stacking_reports_every_second_variant() {
    let mut search = search(&fresh_path("step"), false, false, 2, None);
    let mut reported: Vec<usize> = vec![];
    for _ in 0..400 {
        if search.index >= 4 {
            break;
        }
        let mut round = match search.begin() {
            Ok(round) => round,
            Err(_) => continue,
        };
        match search.next(&mut round, RoundEvent::Resume) {
            Ok(RoundAction::Report { count, .. }) => reported.push(count),
            Ok(RoundAction::Finish) => {}
            other => panic!("{:?}", other),
        }
    }
    assert_eq!(reported, vec![2, 4]);
    assert!(search.finished());
}

#[test]
fn variants_cannot_be_compared_with_nothing() {
    let mut search = search(&fresh_path("nothing"), false, true, 1, None);
    let (_, mut round) = fruitful_round(&search);
    assert!(matches!(
        search.next(&mut round, RoundEvent::Resume),
        Err(StackingError::OriginalNotExecuted)
    ));
}

#[test]
fn the_same_variant_is_not_taken_again() {
    let path = fresh_path("again");
    let (seed, first) = {
        let mut search = search(&path, false, true, 1, state());
        let (seed, mut round) = fruitful_round(&search);
        let first = match search.next(&mut round, RoundEvent::Resume) {
            Ok(RoundAction::Evaluate { variant }) => variant,
            other => panic!("{:?}", other),
        };
        match search.next(&mut round, RoundEvent::Evaluated { same: true }) {
            Ok(RoundAction::Report { variant, count, .. }) => {
                assert_eq!(variant, first);
                assert_eq!(count, 1);
            }
            other => panic!("{:?}", other),
        }
        assert_eq!(search.current(), &first);
        (seed, first)
    };
    {
        let cache = Cache::open(&path).unwrap();
        assert_eq!(cache.len(), Ok(1));
        assert_eq!(
            cache.entry_at(0),
            Ok(Some((content_hash(&first), encode_record(0, &first))))
        );
    }
    let mut search = search(&path, false, true, 1, state());
    let mut round = search.begin_with(seed).unwrap();
    let mut event = RoundEvent::Resume;
    loop {
        match search.next(&mut round, event) {
            Ok(RoundAction::Evaluate { variant }) => assert_ne!(variant, first),
            Ok(RoundAction::Finish) => break,
            other => panic!("{:?}", other),
        }
        event = RoundEvent::Evaluated { same: false };
    }
    assert_eq!(search.index, 0);
}

#[test]
fn a_variant_that_differs_is_passed_over() {
    let mut search = search(&fresh_path("differs"), false, true, 1, state());
    let (_, mut round) = fruitful_round(&search);
    let mut action = search.next(&mut round, RoundEvent::Resume);
    let mut compared = 0;
    while let Ok(RoundAction::Evaluate { .. }) = action {
        compared += 1;
        action = search.next(&mut round, RoundEvent::Evaluated { same: false });
    }
    assert!(matches!(action, Ok(RoundAction::Finish)));
    assert!(compared > 0 && compared <= 10);
    assert_eq!(search.index, 0);
    assert_eq!(search.current(), &sample());
}

#[test]
fn random_parents_come_out_of_the_cache() {
    let mut search = search(&fresh_path("random"), true, true, 0, state());
    let (_, mut round) = fruitful_round(&search);
    let first = match search.next(&mut round, RoundEvent::Resume) {
        Ok(RoundAction::Evaluate { variant }) => variant,
        other => panic!("{:?}", other),
    };
    match search.next(&mut round, RoundEvent::Evaluated { same: true }) {
        Ok(RoundAction::Report { variant, parent, count }) => {
            assert_eq!(variant, first);
            assert_eq!(parent, sample());
            assert_eq!(count, 1);
        }
        other => panic!("{:?}", other),
    }
    assert_eq!(search.current(), &first);
    assert_eq!(search.index, 1);
    assert!(!search.finished());
}

#[test]
fn no_parent_can_be_drawn_from_nothing() {
    let mut search = search(&fresh_path("drawn"), true, false, 1, None);
    assert!(matches!(search.settle(sample(), vec![1]), Err(StackingError::EmptyCache)));
    assert_eq!(search.current(), &sample());
}

#[test]
fn the_first_variant_becomes_the_parent() {
    for check_io in [false, true] {
        let mut search = search(&fresh_path("first"), true, check_io, 1, state());
        let (_, mut round) = fruitful_round(&search);
        let mut action = search.next(&mut round, RoundEvent::Resume);
        if check_io {
            assert!(matches!(action, Ok(RoundAction::Evaluate { .. })));
            action = search.next(&mut round, RoundEvent::Evaluated { same: true });
        }
        match action {
            Ok(RoundAction::Report { variant, parent, count }) => {
                assert_eq!(count, 1);
                assert_eq!(parent, sample());
                assert_eq!(search.current(), &variant);
                assert_eq!(search.index, 1);
            }
            other => panic!("{:?}", other),
        }
    }
}

#[test]
fn nothing_is_stacked_twice_without_comparing() {
    let path = fresh_path("twice");
    let (seed, first) = {
        let mut search = search(&path, false, false, 1, None);
        let (seed, mut round) = fruitful_round(&search);
        match search.next(&mut round, RoundEvent::Resume) {
            Ok(RoundAction::Report { variant, .. }) => (seed, variant),
            other => panic!("{:?}", other),
        }
    };
    {
        let cache = Cache::open(&path).unwrap();
        assert_eq!(
            cache.entry_at(0),
            Ok(Some((content_hash(&first), encode_record(0, &first))))
        );
    }
    let mut search = search(&path, false, false, 1, None);
    let mut round = search.begin_with(seed).unwrap();
    match search.next(&mut round, RoundEvent::Resume) {
        Ok(RoundAction::Report { variant, .. }) => assert_ne!(variant, first),
        Ok(RoundAction::Finish) => assert_eq!(search.index, 0),
        other => panic!("{:?}", other),
    }
}

fn limited(chaos_mode: bool, variants_per_parent: usize) -> Stacking {
    Stacking::new(
        sample(),
        1,
        1,
        0,
        fresh_path("limited"),
        vec![],
        false,
        0,
        chaos_mode,
        false,
        variants_per_parent,
        false,
        false,
        None,
        None,
        None,
    )
    .unwrap()
}

#[test]
fn the_number_of_variants_matters_among_random_parents_only() {
    let mut stacked = limited(false, 0);
    let (seed, mut round) = fruitful_round(&stacked);
    assert!(matches!(
        stacked.next(&mut round, RoundEvent::Resume),
        Ok(RoundAction::Report { .. })
    ));
    let mut spread = limited(true, 0);
    let mut round = spread.begin_with(seed).unwrap();
    assert!(matches!(spread.next(&mut round, RoundEvent::Resume), Ok(RoundAction::Finish)));
}

#[test]
fn an_accepted_variant_needs_a_step_and_an_index() {
    let mut search = search(&fresh_path("zero"), false, false, 0, None);
    assert!(matches!(search.settle(sample(), vec![1]), Err(StackingError::ZeroStep)));
    assert_eq!(search.index, 0);
    let (_, mut round) = fruitful_round(&search);
    assert!(matches!(
        search.next(&mut round, RoundEvent::Resume),
        Err(StackingError::ZeroStep)
    ));
    search.index = usize::MAX;
    assert!(matches!(search.settle(sample(), vec![1]), Err(StackingError::IndexOverflow)));
    assert_eq!(search.current(), &sample());
}

#[test]
fn a_search_considers_each_variant() {
    let plain = search(&fresh_path("plain"), false, false, 1, None);
    let checked = search(&fresh_path("checked"), false, true, 1, state());
    let stuck = search(&fresh_path("stuck"), false, true, 1, None);
    for found in [Ok(false), Err(CacheError::Read)] {
        assert_eq!(plain.consider(&found), Consideration::Accept);
        assert_eq!(checked.consider(&found), Consideration::Compare);
        assert_eq!(stuck.consider(&found), Consideration::Refuse);
    }
    for search in [&plain, &checked, &stuck] {
        assert_eq!(search.consider(&Ok(true)), Consideration::PassOver);
    }
}

#[test]
fn a_drawn_parent_is_settled_on_as_it_was_read() {
    let mut search = search(&fresh_path("settled"), true, false, 1, None);
    let entry = |index: usize| Ok(Some((vec![], encode_record(index, &vec![9]))));
    let settled = search.settle_drawn(vec![1], vec![2], Ok(0), entry(4));
    assert!(matches!(settled, Err(StackingError::EmptyCache)));
    for (count, read) in [
        (Err(CacheError::Read), entry(4)),
        (Ok(3), Err(CacheError::Read)),
        (Ok(3), Ok(None)),
    ] {
        let settled = search.settle_drawn(vec![1], vec![2], count, read);
        assert!(matches!(settled, Ok(RoundAction::Unreadable)));
    }
    let settled = search.settle_drawn(vec![1], vec![2], Ok(3), Ok(Some((vec![], vec![7]))));
    assert!(matches!(settled, Err(StackingError::CorruptRecord)));
    let settled = search.settle_drawn(vec![1], vec![2], Ok(3), entry(usize::MAX));
    assert!(matches!(settled, Err(StackingError::IndexOverflow)));
    assert_eq!(search.current(), &sample());
    match search.settle_drawn(vec![1], vec![2], Ok(3), entry(4)) {
        Ok(RoundAction::Report { variant, parent, count }) => {
            assert_eq!(variant, vec![2]);
            assert_eq!(parent, vec![1]);
            assert_eq!(count, 3);
        }
        other => panic!("{:?}", other),
    }
    assert_eq!(search.current(), &vec![9]);
    assert_eq!(search.index, 5);
}

#[test]
fn a_run_keeps_its_settings() {
    let mut search = search(&fresh_path("run"), false, false, 3, state());
    for rounds in 1..40 {
        let mut round = match search.begin() {
            Ok(round) => round,
            Err(_) => continue,
        };
        loop {
            match search.next(&mut round, RoundEvent::Resume) {
                Ok(RoundAction::Finish) => break,
                Ok(RoundAction::Report { count, .. }) => assert_eq!(count, search.index),
                other => panic!("{:?}", other),
            }
        }
        assert!(search.index <= rounds);
        assert_eq!(search.step, 3);
        assert_eq!(search.original(), &sample());
        assert_eq!(search.original_state().as_ref().unwrap().machine_code, vec![1]);
    }
    assert!(search.index > 0);
}

fn search_over(entries: Vec<(Vec<u8>, Vec<u8>)>) -> Stacking {
    let path = fresh_path("over");
    {
        let mut cache = Cache::open(&path).unwrap();
        for (key, value) in entries {
            cache.insert(&key, value).unwrap();
        }
    }
    search(&path, true, false, 1, None)
}

#[test]
fn a_draw_picks_by_position() {
    let mut search = search_over(vec![
        (vec![2], encode_record(20, &vec![0xb])),
        (vec![1], encode_record(10, &vec![0xa])),
        (vec![3], encode_record(30, &vec![0xc])),
    ]);
    for (draw, wasm, index) in [(2usize, 0xcu8, 31usize), (0, 0xa, 11), (1, 0xb, 21)] {
        assert_eq!(search.adopt_parent(draw), Ok(true));
        assert_eq!(search.current(), &vec![wasm]);
        assert_eq!(search.index, index);
    }
}

#[test]
fn every_entry_can_be_drawn() {
    let entries: Vec<(Vec<u8>, Vec<u8>)> =
        (0u8..4).map(|k| (vec![k], encode_record(k as usize, &vec![k]))).collect();
    let mut search = search_over(entries);
    let mut seen = vec![false; 4];
    for _ in 0..100 {
        match search.settle(vec![], vec![]) {
            Ok(RoundAction::Report { count, .. }) => {
                assert_eq!(count, 4);
                seen[search.current()[0] as usize] = true;
            }
            other => panic!("{:?}", other),
        }
    }
    assert!(seen.iter().filter(|s| **s).count() > 1);
}

#[test]
fn an_entry_that_is_no_record_stops_the_search() {
    let mut search = search_over(vec![(vec![1], vec![1, 2, 3])]);
    assert_eq!(search.adopt_parent(0), Err(StackingError::CorruptRecord));
    assert_eq!(search.current(), &sample());
}

#[test]
fn an_index_that_does_not_fit_stops_the_search() {
    let mut search = search_over(vec![(vec![1], encode_record(usize::MAX, &vec![1]))]);
    assert_eq!(search.adopt_parent(0), Err(StackingError::IndexOverflow));
    assert_eq!(search.index, 0);
}

#[test]
fn a_machine_code_is_news_once() {
    let mut search = search(&fresh_path("news"), true, false, 1, None);
    let original: Vec<u8> = vec![0; 32];
    assert_eq!(search.note_machine_code(&original, &original), Ok(false));
    assert_eq!(search.note_machine_code(&vec![1; 32], &original), Ok(true));
    assert_eq!(search.note_machine_code(&vec![1; 32], &original), Ok(false));
    assert_eq!(search.note_machine_code(&vec![2; 32], &original), Ok(true));
    assert_eq!(search.note_machine_code(&vec![2; 31], &original), Ok(true));
}

#[test]
fn a_round_ends_on_its_own() {
    let mut search = search(&fresh_path("ends"), true, true, 1, state());
    let (_, mut round) = fruitful_round(&search);
    let mut event = RoundEvent::Resume;
    let mut steps = 0;
    loop {
        steps += 1;
        assert!(steps <= 21);
        event = match search.next(&mut round, event) {
            Ok(RoundAction::Evaluate { .. }) => RoundEvent::Evaluated { same: true },
            Ok(RoundAction::Report { .. }) | Ok(RoundAction::Unreadable) => RoundEvent::Resume,
            Ok(RoundAction::Finish) => break,
            other => panic!("{:?}", other),
        };
    }
}

#[test]
fn what_the_cache_says_decides() {
    assert!(is_worth_trying(&Ok(false)));
    assert!(!is_worth_trying(&Ok(true)));
    assert!(is_worth_trying(&Err(CacheError::Read)));
}

#[test]
fn what_makes_a_machine_code_new() {
    assert!(is_new_code(&vec![1], &vec![2], false));
    assert!(!is_new_code(&vec![1], &vec![2], true));
    assert!(!is_new_code(&vec![1], &vec![1], false));
    assert!(is_new_code(&vec![1], &vec![1, 1], false));
}

#[test]
fn an_entry_is_adopted_as_it_was_read() {
    let mut search = search(&fresh_path("adopt"), true, false, 1, None);
    assert_eq!(search.adopt_entry(Ok(None)), Ok(false));
    assert_eq!(search.adopt_entry(Err(CacheError::Read)), Ok(false));
    assert_eq!(
        search.adopt_entry(Ok(Some((vec![], vec![1])))),
        Err(StackingError::CorruptRecord)
    );
    assert_eq!(search.current(), &sample());
    let entry = (vec![], encode_record(4, &vec![9]));
    assert_eq!(search.adopt_entry(Ok(Some(entry))), Ok(true));
    assert_eq!(search.current(), &vec![9]);
    assert_eq!(search.index, 5);
}

#[test]
fn an_accepted_variant_is_stacked() {
    let mut search = search(&fresh_path("settle"), false, true, 2, state());
    assert!(matches!(search.settle(sample(), vec![1]), Ok(RoundAction::Finish)));
    assert_eq!(search.current(), &vec![1]);
    match search.settle(vec![1], vec![2]) {
        Ok(RoundAction::Report { variant, parent, count }) => {
            assert_eq!(variant, vec![2]);
            assert_eq!(parent, vec![1]);
            assert_eq!(count, 2);
        }
        other => panic!("{:?}", other),
    }
    assert_eq!(search.index, 2);
}

#[test]
fn a_search_can_be_set_up_over_open_caches() {
    let mut hashes = Cache::open(&fresh_path("hashes")).unwrap();
    hashes.insert(&vec![1], encode_record(7, &vec![3])).unwrap();
    let mc_hashes = Cache::open(&fresh_path("codes")).unwrap();
    let mut search = Stacking::over(
        sample(),
        1,
        1,
        0,
        hashes,
        mc_hashes,
        vec![],
        false,
        0,
        true,
        false,
        10,
        true,
        false,
        None,
        Some("oracle".to_string()),
        None,
    );
    assert!(search.save_compiling());
    assert!(search.chaos_mode());
    assert_eq!(search.oracle(), &Some("oracle".to_string()));
    assert_eq!(search.adopt_parent(0), Ok(true));
    assert_eq!(search.index, 8);
}

#[test]
fn everything_in_the_cache_is_a_record_under_its_hash() {
    let path = fresh_path("sound");
    {
        let mut search = search(&path, true, true, 1, state());
        let (_, mut round) = fruitful_round(&search);
        let mut event = RoundEvent::Resume;
        loop {
            event = match search.next(&mut round, event) {
                Ok(RoundAction::Evaluate { .. }) => RoundEvent::Evaluated { same: true },
                Ok(RoundAction::Finish) => break,
                Ok(_) => RoundEvent::Resume,
                other => panic!("{:?}", other),
            };
        }
    }
    let cache = Cache::open(&path).unwrap();
    let count = cache.len().unwrap();
    assert!(count > 0);
    for position in 0..count {
        let (key, value) = cache.entry_at(position).unwrap().unwrap();
        let (wasm, _) = decode_record(&value).unwrap();
        assert_eq!(content_hash(&wasm), key);
    }
}

#[test]
fn equal_generators_draw_equal_seeds() {
    let mut outcomes: Vec<Vec<Option<Vec<u8>>>> = vec![];
    for name in ["one", "other"] {
        let mut search = search(&fresh_path(name), false, true, 1, state());
        let mut firsts: Vec<Option<Vec<u8>>> = vec![];
        for valid in [true, false, true, false, true, false] {
            let begun = if valid { search.begin_valid() } else { search.begin() };
            firsts.push(match begun {
                Ok(mut round) => match search.next(&mut round, RoundEvent::Resume) {
                    Ok(RoundAction::Evaluate { variant }) => Some(variant),
                    _ => None,
                },
                Err(_) => None,
            });
        }
        outcomes.push(firsts);
    }
    assert_eq!(outcomes[0], outcomes[1]);
    assert!(outcomes[0].iter().any(|first| first.is_some()));
}

#[test]
fn one_seed_draws_the_same_parents() {
    let entries = || -> Vec<(Vec<u8>, Vec<u8>)> {
        (0u8..9).map(|k| (vec![k], encode_record(k as usize, &vec![k]))).collect()
    };
    let (mut one, mut other) = (search_over(entries()), search_over(entries()));
    let mut drawn: Vec<u8> = vec![];
    for _ in 0..30 {
        for search in [&mut one, &mut other] {
            assert!(matches!(search.settle(vec![], vec![]), Ok(RoundAction::Report { .. })));
        }
        assert_eq!(one.current(), other.current());
        drawn.push(one.current()[0]);
    }
    assert!(drawn.iter().any(|k| *k != drawn[0]));
}

#[test]
fn parents_are_those_that_the_generator_draws() {
    let entries = (0u8..9).map(|k| (vec![k], encode_record(k as usize, &vec![k]))).collect();
    let mut search = search_over(entries);
    let mut rng = rand::rngs::SmallRng::seed_from_u64(0);
    for _ in 0..30 {
        assert!(matches!(search.settle(vec![], vec![]), Ok(RoundAction::Report { .. })));
        let expected: usize = rng.gen_range(0..9);
        assert_eq!(search.current(), &vec![expected as u8]);
    }
}

#[test]
fn rounds_have_the_seeds_that_the_generator_draws() {
    let mut search = search(&fresh_path("seeds"), false, true, 1, state());
    let mut rng = rand::rngs::SmallRng::seed_from_u64(0);
    for _ in 0..10 {
        let seed: u64 = rng.gen();
        let expected = search.begin_with(seed);
        let begun = search.begin();
        assert_eq!(expected.is_ok(), begun.is_ok());
        if let (Ok(mut a), Ok(mut b)) = (expected, begun) {
            let first = search.next(&mut a, RoundEvent::Resume);
            let second = search.next(&mut b, RoundEvent::Resume);
            match (first, second) {
                (
                    Ok(RoundAction::Evaluate { variant: x }),
                    Ok(RoundAction::Evaluate { variant: y }),
                ) => assert_eq!(x, y),
                (Ok(RoundAction::Finish), Ok(RoundAction::Finish)) => {}
                other => panic!("{:?}", other),
            }
        }
    }
}
