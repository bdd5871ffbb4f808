//! The mutations of a module.

use vstd::prelude::*;

verus! {

#[verifier::external_type_specification]
#[verifier::external_body]
pub struct ExMutateError(wasm_mutate::Error);

/// Whether `wasmparser` finds `wasm` valid, with or without 64-bit memories,
/// extended constant expressions, the memory control instructions and
/// components among what it takes, and with its default choice of the other
/// features.
pub uninterp spec fn validates(
    wasm: Seq<u8>,
    memory64: bool,
    extended_const: bool,
    memory_control: bool,
    components: bool,
) -> bool;

/// Whether running the mutator on these arguments may have this outcome: an
/// error, or a list of variants, where a mutation that failed stands as
/// nothing. The mutator's search is cut short by a wall clock, so that one
/// list of arguments may have several outcomes.
pub uninterp spec fn mutation_outcome(
    wasm: Seq<u8>,
    preserve_semantics: bool,
    seed: u64,
    limit: nat,
    outcome: Option<Seq<Option<Seq<u8>>>>,
) -> bool;

/// Whether `wasm_mutate` returns on these bytes, whatever its settings, its seed
/// and its pace: it panics on components, on exception tags, typed references
/// and garbage collected types, and on some modules that are not valid.
pub uninterp spec fn mutator_returns(wasm: Seq<u8>) -> bool;

/// Calls `wasmparser::Validator::validate_all` under the default features,
/// except for those that are given. The answer depends on the bytes and the
/// features alone. What is valid without being a component holds nothing that
/// `wasm_mutate` panics on.
#[verifier::external_body]
fn validate_all(
    wasm: &[u8],
    memory64: bool,
    extended_const: bool,
    memory_control: bool,
    components: bool,
) -> (valid: bool)
    ensures
        valid == validates(wasm@, memory64, extended_const, memory_control, components),
        valid && !components ==> mutator_returns(wasm@),
{
    let features = wasmparser::WasmFeatures {
        memory64,
        extended_const,
        memory_control,
        component_model: components,
        ..wasmparser::WasmFeatures::default()
    };
    wasmparser::Validator::new_with_features(features).validate_all(wasm).is_ok()
}

/// The bytes of a variant, or nothing for a mutation that failed.
pub open spec fn attempt_view(attempt: Result<Vec<u8>, wasm_mutate::Error>) -> Option<Seq<u8>> {
    match attempt {
        Ok(variant) => Some(variant@),
        Err(_) => None,
    }
}

/// The bytes of a list of variants, or nothing for an error.
pub open spec fn attempts_view(
    outcome: Result<Vec<Result<Vec<u8>, wasm_mutate::Error>>, wasm_mutate::Error>,
) -> Option<Seq<Option<Seq<u8>>>> {
    match outcome {
        Ok(list) => Some(list@.map_values(|a: Result<Vec<u8>, wasm_mutate::Error>| attempt_view(a))),
        Err(_) => None,
    }
}

/// Calls `wasm_mutate::WasmMutate::run` with the given seed, and with only
/// those mutations that preserve the semantics where that is asked for, and
/// takes at most `limit` of the variants that it yields.
#[verifier::external_body]
fn run_mutator(wasm: &[u8], preserve_semantics: bool, seed: u64, limit: usize) -> (outcome: Result<
    Vec<Result<Vec<u8>, wasm_mutate::Error>>,
    wasm_mutate::Error,
>)
    requires
        mutator_returns(wasm@),
    ensures
        mutation_outcome(wasm@, preserve_semantics, seed, limit as nat, attempts_view(outcome)),
        outcome matches Ok(list) ==> list@.len() <= limit,
{
    let mut mutator = wasm_mutate::WasmMutate::default();
    mutator.preserve_semantics(preserve_semantics).seed(seed);
    let attempts = mutator.run(wasm)?;
    Ok(attempts.take(limit).collect())
}

/// Why there are no variants of a module.
#[derive(Clone, Copy, Debug, PartialEq, Eq, Structural)]
pub enum MutationError {
    /// The bytes were not given to the mutator, because they are not a valid
    /// module.
    InvalidModule,
    /// The mutator found nothing to mutate.
    NotMutated,
}

/// Whether bytes are a valid module, with everything that the mutator copes
/// with among what it may hold.
pub open spec fn is_valid_module(wasm: Seq<u8>) -> bool {
    validates(wasm, true, true, true, false)
}

/// Whether bytes are a valid module. The mutator returns on each of them; on
/// which others it does cannot be found out beforehand.
pub fn is_valid(wasm: &Vec<u8>) -> (valid: bool)
    ensures
        valid == is_valid_module(wasm@),
        valid ==> mutator_returns(wasm@),
{
    validate_all(wasm.as_slice(), true, true, true, false)
}

/// The bytes of a list of variants.
pub open spec fn variants_view(list: Seq<Option<Vec<u8>>>) -> Seq<Option<Seq<u8>>> {
    list.map_values(
        |v: Option<Vec<u8>>|
            match v {
                Some(variant) => Some(variant@),
                None => None,
            },
    )
}

/// What mutating a module comes to: the variants that the mutator makes, or an
/// error where it fails.
pub open spec fn is_mutated(
    wasm: Seq<u8>,
    preserve_semantics: bool,
    seed: u64,
    limit: nat,
    list: Result<Vec<Option<Vec<u8>>>, MutationError>,
) -> bool {
    match list {
        Ok(list) => {
            &&& list@.len() <= limit
            &&& mutation_outcome(
                wasm,
                preserve_semantics,
                seed,
                limit,
                Some(variants_view(list@)),
            )
        },
        Err(error) => {
            &&& error == MutationError::NotMutated
            &&& mutation_outcome(wasm, preserve_semantics, seed, limit, None)
        },
    }
}

/// Mutates a module with the given seed. At most `limit` variants are made; a
/// mutation that failed stands as nothing.
pub fn mutate(wasm: &Vec<u8>, preserve_semantics: bool, seed: u64, limit: usize) -> (list: Result<
    Vec<Option<Vec<u8>>>,
    MutationError,
>)
    requires
        mutator_returns(wasm@),
    ensures
        is_mutated(wasm@, preserve_semantics, seed, limit as nat, list),
{
    match run_mutator(wasm.as_slice(), preserve_semantics, seed, limit) {
        Ok(attempts) => {
            let mut list: Vec<Option<Vec<u8>>> = Vec::new();
            let ghost all = attempts@;
            for attempt in it: attempts
                invariant
                    it.seq() == all,
                    list@.len() == it.index(),
                    forall|k: int|
                        0 <= k < it.index() ==> variants_view(list@)[k] == attempt_view(
                            #[trigger] all[k],
                        ),
            {
                let ghost before = list@;
                match attempt {
                    Ok(variant) => {
                        list.push(Some(variant));
                    },
                    Err(_) => {
                        list.push(None);
                    },
                }
                assert forall|k: int| 0 <= k < it.index() implies variants_view(list@)[k]
                    == variants_view(before)[k] by {
                    assert(list@[k] == before[k]);
                }
            }
            assert(variants_view(list@) =~= all.map_values(
                |a: Result<Vec<u8>, wasm_mutate::Error>| attempt_view(a),
            ));
            Ok(list)
        },
        Err(_) => Err(MutationError::NotMutated),
    }
}

/// Mutates a module if it is valid.
pub fn mutate_valid(
    wasm: &Vec<u8>,
    preserve_semantics: bool,
    seed: u64,
    limit: usize,
) -> (list: Result<Vec<Option<Vec<u8>>>, MutationError>)
    ensures
        if is_valid_module(wasm@) {
            is_mutated(wasm@, preserve_semantics, seed, limit as nat, list)
        } else {
            list == Err::<Vec<Option<Vec<u8>>>, MutationError>(MutationError::InvalidModule)
        },
{
    if is_valid(wasm) {
        mutate(wasm, preserve_semantics, seed, limit)
    } else {
        Err(MutationError::InvalidModule)
    }
}

/// A list of variants holds the bytes of each variant in its place, and nothing
/// in the place of each mutation that failed.
pub proof fn law_variants_keep_their_places(list: Seq<Option<Vec<u8>>>)
    ensures
        variants_view(list).len() == list.len(),
        forall|i: int|
            0 <= i < list.len() ==> match list[i] {
                Some(variant) => #[trigger] variants_view(list)[i] == Some(variant@),
                None => variants_view(list)[i] is None,
            },
{
}

/// What the mutator hands out holds the bytes of each variant in its place, and
/// nothing in the place of each mutation that failed.
pub proof fn law_attempts_keep_their_places(list: Vec<Result<Vec<u8>, wasm_mutate::Error>>)
    ensures
        attempts_view(Ok(list)) is Some,
        attempts_view(Ok(list))->0.len() == list@.len(),
        forall|i: int|
            0 <= i < list@.len() ==> match list@[i] {
                Ok(variant) => #[trigger] attempts_view(Ok(list))->0[i] == Some(variant@),
                Err(_) => attempts_view(Ok(list))->0[i] is None,
            },
{
}

/// The variants of a module are exactly those of one run of the mutator on it,
/// with the given settings, all of them and in order; there are none only if
/// that run failed.
pub proof fn law_variants_come_from_the_mutator(
    wasm: Seq<u8>,
    preserve_semantics: bool,
    seed: u64,
    limit: nat,
    list: Result<Vec<Option<Vec<u8>>>, MutationError>,
)
    requires
        is_mutated(wasm, preserve_semantics, seed, limit, list),
    ensures
        match list {
            Ok(list) => mutation_outcome(
                wasm,
                preserve_semantics,
                seed,
                limit,
                Some(
                    Seq::new(
                        list@.len(),
                        |i: int|
                            match list@[i] {
                                Some(variant) => Some(variant@),
                                None => None,
                            },
                    ),
                ),
            ),
            Err(error) => error == MutationError::NotMutated && mutation_outcome(
                wasm,
                preserve_semantics,
                seed,
                limit,
                None,
            ),
        },
{
    if let Ok(list) = list {
        assert(variants_view(list@) =~= Seq::new(
            list@.len(),
            |i: int|
                match list@[i] {
                    Some(variant) => Some(variant@),
                    None => None,
                },
        ));
    }
}

/// A module is valid if the validator finds it so with 64-bit memories, extended
/// constant expressions and the memory control instructions among what it
/// takes, but no components.
pub proof fn law_valid_modules_may_hold_all_but_components(wasm: Seq<u8>)
    ensures
        is_valid_module(wasm) <==> validates(wasm, true, true, true, false),
{
}

} // verus!
