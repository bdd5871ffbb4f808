use stacking::metadata::{
    count_instructions, find_code, metadata, Metadata, MetadataError,
};
use stacking::mutation::{is_valid, mutate, mutate_valid, MutationError};

// (module (func (export "_start") i32.const 1 drop))
fn sample() -> Vec<u8> {
    let mut wasm: Vec<u8> = b"\0asm\x01\0\0\0".to_vec();
    wasm.extend([1, 4, 1, 0x60, 0, 0]);
    wasm.extend([3, 2, 1, 0]);
    wasm.extend([7, 10, 1, 6]);
    wasm.extend(b"_start");
    wasm.extend([0, 0]);
    wasm.extend([10, 7, 1, 5, 0, 0x41, 1, 0x1a, 0x0b]);
    wasm
}

// (module (func) (func i32.const 1 drop))
fn two_functions() -> Vec<u8> {
    let mut wasm: Vec<u8> = b"\0asm\x01\0\0\0".to_vec();
    wasm.extend([1, 4, 1, 0x60, 0, 0]);
    wasm.extend([3, 3, 2, 0, 0]);
    wasm.extend([10, 10, 2, 2, 0, 0x0b, 5, 0, 0x41, 1, 0x1a, 0x0b]);
    wasm
}

#[test]
fn metadata_counts_functions_and_instructions() {
    assert_eq!(metadata(&sample()), Ok(Metadata { functions: 1, instructions: 3 }));
    assert_eq!(metadata(&two_functions()), Ok(Metadata { functions: 2, instructions: 4 }));
}

#[test]
fn metadata_needs_code() {
    assert_eq!(metadata(&b"\0asm\x01\0\0\0".to_vec()), Err(MetadataError::NoCode));
}

#[test]
fn metadata_needs_a_well_formed_binary() {
    assert_eq!(metadata(&vec![]), Err(MetadataError::Malformed));
    assert_eq!(metadata(&b"not wasm".to_vec()), Err(MetadataError::Malformed));
    let mut cut = sample();
    cut.pop();
    assert_eq!(metadata(&cut), Err(MetadataError::Malformed));
    let mut unknown = sample();
    let last = unknown.len() - 2;
    unknown[last] = 0xff;
    assert_eq!(metadata(&unknown), Err(MetadataError::Malformed));
}

#[test]
fn metadata_needs_a_module() {
    let component: Vec<u8> = b"\0asm\x0d\0\x01\0".to_vec();
    assert_eq!(metadata(&component), Err(MetadataError::Component));
}

#[test]
fn code_is_found_in_the_last_code_section() {
    let parts = vec![(false, None), (false, Some((3, 5))), (false, None), (false, Some((6, 9)))];
    assert_eq!(find_code(&parts, 10), Ok((6, 9)));
    assert_eq!(find_code(&parts, 9), Ok((6, 9)));
    assert_eq!(find_code(&parts, 8), Err(MetadataError::Malformed));
    assert_eq!(find_code(&vec![(false, Some((4, 3)))], 9), Err(MetadataError::Malformed));
    assert_eq!(find_code(&vec![], 9), Err(MetadataError::NoCode));
    assert_eq!(find_code(&vec![(false, None)], 9), Err(MetadataError::NoCode));
    assert_eq!(
        find_code(&vec![(false, Some((0, 1))), (true, None)], 9),
        Err(MetadataError::Component)
    );
}

#[test]
fn instructions_add_up() {
    assert_eq!(count_instructions(&vec![]), 0);
    assert_eq!(count_instructions(&vec![vec![1, 3, 4], vec![], vec![1]]), 4);
}

#[test]
fn bytes_that_are_no_module_are_not_mutated() {
    assert_eq!(mutate_valid(&vec![1, 2, 3], true, 0, 10), Err(MutationError::InvalidModule));
    assert_eq!(mutate_valid(&vec![], true, 0, 10), Err(MutationError::InvalidModule));
    let component: Vec<u8> = b"\0asm\x0d\0\x01\0".to_vec();
    assert_eq!(mutate_valid(&component, true, 0, 10), Err(MutationError::InvalidModule));
}

#[test]
fn the_mutator_turns_down_what_it_cannot_parse() {
    assert_eq!(mutate(&vec![1, 2, 3], true, 0, 10), Err(MutationError::NotMutated));
    assert_eq!(mutate(&vec![], true, 0, 10), Err(MutationError::NotMutated));
}

// (module (export "x" (func 9))), which exports what is not there
fn bad_export() -> Vec<u8> {
    let mut wasm: Vec<u8> = b"\0asm\x01\0\0\0".to_vec();
    wasm.extend([7, 5, 1, 1, 0x78, 0, 9]);
    wasm
}

#[test]
fn the_mutator_works_on_some_modules_that_are_not_valid() {
    let wasm = bad_export();
    assert!(!is_valid(&wasm));
    assert!(is_valid(&sample()));
    let made = (0..40).filter(|seed| mutate(&wasm, true, *seed, 1).is_ok()).count();
    assert!(made > 0);
    assert_eq!(mutate_valid(&wasm, true, 0, 1), Err(MutationError::InvalidModule));
}

#[test]
fn variants_are_modules_of_their_own() {
    let wasm = sample();
    let mut made = 0;
    for seed in 0..40 {
        if let Ok(list) = mutate(&wasm, true, seed, 3) {
            assert!(list.len() <= 3);
            for variant in list.iter().flatten() {
                made += 1;
                assert_ne!(*variant, wasm);
                assert!(wasmparser::Validator::new().validate_all(variant).is_ok());
            }
        }
    }
    assert!(made > 0);
}

#[test]
fn some_seeds_find_nothing_to_mutate() {
    let wasm = two_functions();
    let fruitless = (0..60).filter(|seed| {
        mutate(&wasm, true, *seed, 1) == Err(MutationError::NotMutated)
    });
    assert!(fruitless.count() > 0);
}

#[test]
fn no_more_variants_than_asked_for() {
    for seed in 0..10 {
        if let Ok(list) = mutate(&sample(), true, seed, 0) {
            assert!(list.is_empty());
        }
    }
}

// (module (global i32 i32.const 1 i32.const 2 i32.add) (func))
fn extended_constants() -> Vec<u8> {
    let mut wasm: Vec<u8> = b"\0asm\x01\0\0\0".to_vec();
    wasm.extend([1, 4, 1, 0x60, 0, 0]);
    wasm.extend([3, 2, 1, 0]);
    wasm.extend([6, 9, 1, 0x7f, 0, 0x41, 1, 0x41, 2, 0x6a, 0x0b]);
    wasm.extend([10, 4, 1, 2, 0, 0x0b]);
    wasm
}

#[test]
fn extended_constant_expressions_are_let_in() {
    let wasm = extended_constants();
    let made = (0..40).filter(|seed| mutate_valid(&wasm, true, *seed, 1).is_ok()).count();
    assert!(made > 0);
    for seed in 0..40 {
        assert_ne!(mutate_valid(&wasm, true, seed, 1), Err(MutationError::InvalidModule));
    }
}

#[test]
fn a_module_that_is_not_valid_is_not_mutated() {
    let mut wasm = sample();
    let drop = wasm.len() - 2;
    wasm[drop] = 0x01;
    assert!(metadata(&wasm).is_ok());
    assert_eq!(mutate_valid(&wasm, true, 0, 1), Err(MutationError::InvalidModule));
}
