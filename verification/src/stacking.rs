//! The search: variants are stacked on top of each other, or spread out from
//! random parents.

use vstd::prelude::*;
use vstd::string::StringExecFns;

use crate::cache::{Cache, CacheError};
use crate::chance::{draw_below, draw_seed, seeded_rng};
use crate::digest::content_hash;
use crate::evaluation::{copy_args, Evaluation};
use crate::execution::ExecutionResult;
use crate::mutation::{is_valid, mutate, MutationError};
use crate::record::{decode_record, encode_record};

verus! {

/// How many variants of one parent are tried where parents are not random.
pub const DEFAULT_VARIANTS_PER_PARENT: usize = 10;

/// How many variants of one parent are tried: as many as asked for where
/// parents are random, which is the only place where that can be chosen.
pub open spec fn limit_of(chaos_mode: bool, requested: usize) -> usize {
    if chaos_mode {
        requested
    } else {
        10
    }
}

/// How many variants of one parent are tried.
pub fn variants_limit(chaos_mode: bool, requested: usize) -> (limit: usize)
    ensures
        limit == limit_of(chaos_mode, requested),
{
    if chaos_mode {
        requested
    } else {
        DEFAULT_VARIANTS_PER_PARENT
    }
}

/// Puts a variant in the place of the current module.
pub fn swap(current: &mut Vec<u8>, new_interesting: Vec<u8>)
    ensures
        final(current)@ == new_interesting@,
{
    *current = new_interesting;
}

fn copy_bytes(bytes: &Vec<u8>) -> (copy: Vec<u8>)
    ensures
        copy@ == bytes@,
{
    vstd::slice::slice_to_vec(bytes.as_slice())
}

fn same_bytes(a: &Vec<u8>, b: &Vec<u8>) -> (same: bool)
    ensures
        same == (a@ == b@),
{
    if a.len() != b.len() {
        return false;
    }
    let mut i: usize = 0;
    while i < a.len()
        invariant
            i <= a@.len() == b@.len(),
            forall|k: int| 0 <= k < i ==> a@[k] == b@[k],
        decreases a@.len() - i,
    {
        if a[i] != b[i] {
            return false;
        }
        i = i + 1;
    }
    assert(a@ =~= b@);
    true
}

/// Whether a variant is worth trying, given what the cache says of its hash: it
/// is unless it was found there. A cache that cannot be read turns nothing
/// down.
pub fn is_worth_trying(found: &Result<bool, CacheError>) -> (worth: bool)
    ensures
        worth == (*found != Ok::<bool, CacheError>(true)),
{
    match found {
        Ok(there) => !*there,
        Err(_) => true,
    }
}

/// Whether a machine code is news, given whether its hash was noted before: it
/// is neither the original's nor one that was noted.
pub fn is_new_code(hash: &Vec<u8>, original_hash: &Vec<u8>, was_noted: bool) -> (news: bool)
    ensures
        news == (hash@ != original_hash@ && !was_noted),
{
    !was_noted && !same_bytes(hash, original_hash)
}

/// What stops a search.
#[derive(Clone, Copy, Debug, PartialEq, Eq, Structural)]
pub enum StackingError {
    /// A cache could not be opened or used.
    Cache(CacheError),
    /// Variants are to be compared with the original, which was not executed.
    OriginalNotExecuted,
    /// A parent is to be drawn from an empty cache.
    EmptyCache,
    /// An entry of the cache is not a record.
    CorruptRecord,
    /// A variant's index does not fit.
    IndexOverflow,
    /// The step between reports is zero.
    ZeroStep,
}

/// The search: the module at hand, how it got there, and what is to be done.
pub struct Stacking {
    current: (Vec<u8>, usize),
    original: Vec<u8>,
    check_args: Vec<String>,
    original_state: Option<ExecutionResult>,
    /// The index of the next variant's parent.
    pub index: usize,
    /// Every how many variants one is reported.
    pub step: usize,
    fuel: u64,
    count: usize,
    rnd: rand::rngs::SmallRng,
    check_io: bool,
    check_mem: bool,
    // The hashes of the variants, so that none is made twice.
    hashes: Cache,
    // The hashes of the machine codes, so that none is reported twice.
    mc_hashes: Cache,
    chaos_mode: bool,
    variants_per_parent: usize,
    no_preserve_semantics: bool,
    save_compiling: bool,
    args_generator: Option<String>,
    oracle: Option<String>,
}

/// What a search does not change.
#[verifier::ext_equal]
pub struct Settings {
    pub original: Seq<u8>,
    pub check_args: Seq<Seq<char>>,
    pub original_state: Option<crate::execution::ExecutionView>,
    pub fuel: u64,
    pub count: usize,
    pub check_io: bool,
    pub check_mem: bool,
    pub chaos_mode: bool,
    pub variants_per_parent: usize,
    pub no_preserve_semantics: bool,
    pub save_compiling: bool,
    pub args_generator: Option<Seq<char>>,
    pub oracle: Option<Seq<char>>,
    /// Where the variants are cached.
    pub cache_path: Seq<char>,
    /// Where the machine codes are cached.
    pub mc_cache_path: Seq<char>,
}

/// The contents of a [`Stacking`].
#[verifier::ext_equal]
pub struct StackingView {
    /// The module that the next variants are made of.
    pub current: Seq<u8>,
    /// The index that goes with it.
    pub current_index: usize,
    pub index: usize,
    pub step: usize,
    /// The records of the variants, by their hashes.
    pub entries: Map<Seq<u8>, Seq<u8>>,
    /// The hashes of the machine codes.
    pub machine_codes: Map<Seq<u8>, Seq<u8>>,
    /// The generator of all random draws.
    pub generator: rand::rngs::SmallRng,
    pub settings: Settings,
}

impl View for Stacking {
    type V = StackingView;

    closed spec fn view(&self) -> StackingView {
        StackingView {
            current: self.current.0@,
            current_index: self.current.1,
            index: self.index,
            step: self.step,
            entries: self.hashes@,
            machine_codes: self.mc_hashes@,
            generator: self.rnd,
            settings: Settings {
                original: self.original@,
                check_args: crate::text::texts(self.check_args@),
                original_state: crate::execution::execution_view(self.original_state),
                fuel: self.fuel,
                count: self.count,
                check_io: self.check_io,
                check_mem: self.check_mem,
                chaos_mode: self.chaos_mode,
                variants_per_parent: self.variants_per_parent,
                no_preserve_semantics: self.no_preserve_semantics,
                save_compiling: self.save_compiling,
                args_generator: crate::evaluation::optional_text(self.args_generator),
                oracle: crate::evaluation::optional_text(self.oracle),
                cache_path: self.hashes.path(),
                mc_cache_path: self.mc_hashes.path(),
            },
        }
    }
}

/// The search with a variant stacked on top of the module at hand.
pub open spec fn stacked(search: StackingView, variant: Seq<u8>) -> StackingView {
    StackingView {
        current: variant,
        current_index: (search.index + 1) as usize,
        index: (search.index + 1) as usize,
        ..search
    }
}

/// The search with a variant put into its cache.
pub open spec fn recorded(search: StackingView, variant: Seq<u8>) -> StackingView {
    StackingView {
        entries: search.entries.insert(
            crate::digest::blake3_of(variant),
            crate::record::record(search.index as nat, variant),
        ),
        ..search
    }
}

/// The search with the variant of a record as the module at hand.
pub open spec fn adopted(search: StackingView, bytes: Seq<u8>) -> StackingView {
    StackingView {
        current: crate::record::record_wasm(bytes),
        current_index: crate::record::record_index(bytes) as usize,
        index: (crate::record::record_index(bytes) + 1) as usize,
        ..search
    }
}

/// The search with a seed drawn.
pub open spec fn seed_drawn(search: StackingView) -> StackingView {
    StackingView { generator: crate::chance::after_seed(search.generator), ..search }
}

/// The position among the cached variants that is drawn next.
pub open spec fn next_position(search: StackingView) -> nat {
    crate::chance::next_below(search.generator, search.entries.len() as usize) as nat
}

/// The search with a position among the cached variants drawn.
pub open spec fn position_drawn(search: StackingView) -> StackingView {
    StackingView {
        generator: crate::chance::after_below(search.generator, search.entries.len() as usize),
        ..search
    }
}

/// The entry that a draw picks: the keys are put in order, and the draw is a
/// position among them.
pub open spec fn drawn_entry(search: StackingView, draw: nat) -> Seq<u8> {
    search.entries[crate::cache::key_at(search.entries, draw)]
}

/// Whether an entry can be adopted: it is a record, and the index after its
/// own fits.
pub open spec fn is_adoptable(bytes: Seq<u8>) -> bool {
    crate::record::is_record(bytes) && crate::record::record_index(bytes) < usize::MAX
}

/// Why an entry cannot be adopted.
pub open spec fn adoption_error(bytes: Seq<u8>) -> StackingError {
    if !crate::record::is_record(bytes) {
        StackingError::CorruptRecord
    } else {
        StackingError::IndexOverflow
    }
}

/// The variants of one parent, on their way through the search.
pub struct Round {
    parent: Vec<u8>,
    variants: Vec<Option<Vec<u8>>>,
    position: usize,
    awaiting: bool,
    unchecked: bool,
    done: bool,
}

/// The contents of a [`Round`].
#[verifier::ext_equal]
pub struct RoundView {
    pub parent: Seq<u8>,
    /// The variants; a mutation that failed stands as nothing.
    pub variants: Seq<Option<Seq<u8>>>,
    /// How many of them have been looked at.
    pub position: nat,
    /// Whether the last one is being compared with the original.
    pub awaiting: bool,
    /// Whether the cache could not say if the last one is new.
    pub unchecked: bool,
    /// Whether a variant was stacked, which ends the round.
    pub done: bool,
}

impl View for Round {
    type V = RoundView;

    closed spec fn view(&self) -> RoundView {
        RoundView {
            parent: self.parent@,
            variants: crate::mutation::variants_view(self.variants@),
            position: self.position as nat,
            awaiting: self.awaiting,
            unchecked: self.unchecked,
            done: self.done,
        }
    }
}

impl RoundView {
    /// Whether a round is one that a search can be in.
    pub open spec fn well_formed(self) -> bool {
        &&& self.position <= self.variants.len()
        &&& self.awaiting ==> !self.done && self.position > 0
            && self.variants[self.position - 1] is Some
    }

    /// The variant that was looked at last.
    pub open spec fn last(self) -> Seq<u8> {
        self.variants[self.position - 1]->0
    }

    /// Whether `event` answers what was to be done.
    pub open spec fn expects(self, event: RoundEvent) -> bool {
        self.awaiting == (event is Evaluated)
    }
}

/// What came of the last thing to do.
#[derive(Clone, Copy, Debug)]
pub enum RoundEvent {
    /// There was nothing to find out.
    Resume,
    /// The variant was compared with the original.
    Evaluated { same: bool },
}

/// What to do next.
#[derive(Debug)]
pub enum RoundAction {
    /// Compare this variant with the original.
    Evaluate { variant: Vec<u8> },
    /// Report this variant. The count is the variant's index or, among random
    /// parents, the number of cached variants.
    Report { variant: Vec<u8>, parent: Vec<u8>, count: usize },
    /// The cache could not be read when a parent was drawn: nothing to do.
    Unreadable,
    /// The round is over.
    Finish,
}

/// The contents of a [`RoundAction`].
#[verifier::ext_equal]
pub enum RoundActionView {
    Evaluate { variant: Seq<u8> },
    Report { variant: Seq<u8>, parent: Seq<u8>, count: nat },
    Unreadable,
    Finish,
}

impl View for RoundAction {
    type V = RoundActionView;

    open spec fn view(&self) -> RoundActionView {
        match *self {
            RoundAction::Evaluate { variant } => RoundActionView::Evaluate { variant: variant@ },
            RoundAction::Report { variant, parent, count } => RoundActionView::Report {
                variant: variant@,
                parent: parent@,
                count: count as nat,
            },
            RoundAction::Unreadable => RoundActionView::Unreadable,
            RoundAction::Finish => RoundActionView::Finish,
        }
    }
}

/// What is to be done once a variant is accepted where variants are stacked:
/// it becomes the module at hand, and every so many are reported.
pub open spec fn stacks(
    before: StackingView,
    after: StackingView,
    parent: Seq<u8>,
    variant: Seq<u8>,
    action: RoundActionView,
) -> bool {
    &&& before.index < usize::MAX
    &&& before.step > 0
    &&& after == stacked(before, variant)
    &&& action == if after.index % after.step == 0 {
        RoundActionView::Report { variant, parent, count: after.index as nat }
    } else {
        RoundActionView::Finish
    }
}

/// Whether drawing from the cache may fail: an entry cannot be read, or there
/// are more of them than can be counted.
pub open spec fn cannot_be_drawn_from(search: StackingView) -> bool {
    crate::cache::is_unreadable(search.entries) || search.entries.len() > usize::MAX
}

/// What is to be done once a variant is accepted where parents are random: it
/// is reported, and the variant at the position that is drawn next becomes the
/// module at hand. If the cache cannot be read, everything stays as it was, but
/// for the draw where the read came after it.
pub open spec fn spreads(
    before: StackingView,
    after: StackingView,
    parent: Seq<u8>,
    variant: Seq<u8>,
    action: RoundActionView,
) -> bool {
    ||| {
        &&& action == RoundActionView::Unreadable
        &&& after == before || after == position_drawn(before)
        &&& cannot_be_drawn_from(before)
    }
    ||| {
        let entry = drawn_entry(before, next_position(before));
        &&& action == RoundActionView::Report { variant, parent, count: before.entries.len() }
        &&& next_position(before) < before.entries.len() <= usize::MAX
        &&& is_adoptable(entry)
        &&& after == adopted(position_drawn(before), entry)
    }
}

/// What is to be done once a variant is accepted.
pub open spec fn settles(
    before: StackingView,
    after: StackingView,
    parent: Seq<u8>,
    variant: Seq<u8>,
    action: RoundActionView,
) -> bool {
    if before.settings.chaos_mode {
        spreads(before, after, parent, variant, action)
    } else {
        stacks(before, after, parent, variant, action)
    }
}

/// When an accepted variant stops the search instead: among random parents, no
/// parent can be drawn, or the one drawn cannot be adopted; where variants are
/// stacked, there is no index left, or no step between reports.
pub open spec fn settling_fails(
    before: StackingView,
    after: StackingView,
    error: StackingError,
) -> bool {
    if before.settings.chaos_mode {
        if before.entries.len() == 0 {
            error == StackingError::EmptyCache && after == before
        } else {
            let entry = drawn_entry(before, next_position(before));
            &&& next_position(before) < before.entries.len() <= usize::MAX
            &&& !is_adoptable(entry)
            &&& error == adoption_error(entry)
            &&& after == position_drawn(before)
        }
    } else {
        &&& after == before
        &&& if before.index == usize::MAX {
            error == StackingError::IndexOverflow
        } else {
            before.step == 0 && error == StackingError::ZeroStep
        }
    }
}

/// What comes of an accepted variant among random parents, given what came of
/// counting the cached variants and of reading the one that was drawn.
pub open spec fn settles_drawn(
    before: StackingView,
    after: StackingView,
    parent: Seq<u8>,
    variant: Seq<u8>,
    count: Result<usize, CacheError>,
    entry: Result<Option<(Vec<u8>, Vec<u8>)>, CacheError>,
    result: Result<RoundActionView, StackingError>,
) -> bool {
    match (count, entry) {
        (Ok(0), _) => {
            &&& result == Err::<RoundActionView, StackingError>(StackingError::EmptyCache)
            &&& after == before
        },
        (Ok(n), Ok(Some((_, value)))) => if is_adoptable(value@) {
            &&& result == Ok::<RoundActionView, StackingError>(
                RoundActionView::Report { variant, parent, count: n as nat },
            )
            &&& after == adopted(before, value@)
        } else {
            &&& result == Err::<RoundActionView, StackingError>(adoption_error(value@))
            &&& after == before
        },
        _ => {
            &&& result == Ok::<RoundActionView, StackingError>(RoundActionView::Unreadable)
            &&& after == before
        },
    }
}

/// What comes of a variant that is accepted: it is put into the cache, and then
/// stacked or spread. If it cannot be put there, the search stops.
pub open spec fn takes(
    before: StackingView,
    after: StackingView,
    parent: Seq<u8>,
    variant: Seq<u8>,
    result: Result<RoundActionView, StackingError>,
) -> bool {
    let cached = recorded(before, variant);
    match result {
        Ok(action) => settles(cached, after, parent, variant, action),
        Err(error) => {
            ||| {
                &&& error == StackingError::Cache(CacheError::Write)
                &&& after == StackingView { entries: after.entries, ..before }
                &&& crate::cache::insert_outcome(
                    before.entries,
                    crate::digest::blake3_of(variant),
                    crate::record::record(before.index as nat, variant),
                    false,
                )
            }
            ||| settling_fails(cached, after, error)
        },
    }
}

/// What a search does with a variant.
#[derive(Clone, Copy, Debug, PartialEq, Eq, Structural)]
pub enum Consideration {
    /// Nothing.
    PassOver,
    /// It stops: there is nothing to compare the variant with.
    Refuse,
    /// It has the variant compared with the original.
    Compare,
    /// It accepts the variant.
    Accept,
}

/// What a search does with a variant, given what the cache says of its hash.
pub open spec fn considered(
    settings: Settings,
    found: Result<bool, CacheError>,
) -> Consideration {
    if found == Ok::<bool, CacheError>(true) {
        Consideration::PassOver
    } else if !settings.check_io {
        Consideration::Accept
    } else if settings.original_state is None {
        Consideration::Refuse
    } else {
        Consideration::Compare
    }
}

/// Whether nothing is to be done with the variants from `from` up to `to`: the
/// mutation failed, or the variant is in the cache.
pub open spec fn passed_over(
    search: StackingView,
    variants: Seq<Option<Seq<u8>>>,
    from: nat,
    to: nat,
) -> bool {
    forall|k: int|
        from <= k < to ==> ((#[trigger] variants[k]) matches Some(variant)
            ==> search.entries.contains_key(crate::digest::blake3_of(variant)))
}

/// Whether the search has come to a variant: nothing is to be done with those
/// in between, and it is new, unless looking it up in the cache failed.
pub open spec fn comes_upon(search: StackingView, before: RoundView, after: RoundView) -> bool {
    &&& before.position < after.position <= before.variants.len()
    &&& passed_over(search, before.variants, before.position, (after.position - 1) as nat)
    &&& before.variants[after.position - 1] is Some
    &&& if after.unchecked {
        crate::cache::lookup_outcome(
            search.entries,
            crate::digest::blake3_of(after.last()),
            None,
        )
    } else {
        !search.entries.contains_key(crate::digest::blake3_of(after.last()))
    }
}

/// Whether the search has come to the end of the variants.
pub open spec fn runs_out(search: StackingView, before: RoundView, after: RoundView) -> bool {
    &&& after.position == before.variants.len()
    &&& passed_over(search, before.variants, before.position, after.position)
    &&& !after.done
    &&& !after.awaiting
}

/// One step of the search for the next variant. Every new variant is compared
/// with the original, where that is asked for, and is accepted otherwise.
pub open spec fn searches(
    before: StackingView,
    after: StackingView,
    round: RoundView,
    left: RoundView,
    result: Result<RoundActionView, StackingError>,
) -> bool {
    match result {
        Ok(action) => {
            ||| {
                &&& action is Finish
                &&& after == before
                &&& runs_out(before, round, left)
            }
            ||| {
                &&& comes_upon(before, round, left)
                &&& if before.settings.check_io {
                    &&& before.settings.original_state is Some
                    &&& action == RoundActionView::Evaluate { variant: left.last() }
                    &&& after == before
                    &&& left.awaiting
                    &&& !left.done
                } else {
                    &&& takes(before, after, round.parent, left.last(), Ok(action))
                    &&& !left.awaiting
                    &&& left.done == !before.settings.chaos_mode
                }
            }
        },
        Err(error) => {
            &&& comes_upon(before, round, left)
            &&& !left.awaiting
            &&& !left.done
            &&& if before.settings.check_io {
                &&& before.settings.original_state is None
                &&& error == StackingError::OriginalNotExecuted
                &&& after == before
            } else {
                takes(before, after, round.parent, left.last(), Err(error))
            }
        },
    }
}

/// One step of a round. A variant that was found to be the same as the
/// original is put into the cache and accepted; one that was not is passed
/// over, and the search goes on.
pub open spec fn round_step(
    before: StackingView,
    after: StackingView,
    round: RoundView,
    left: RoundView,
    event: RoundEvent,
    result: Result<RoundActionView, StackingError>,
) -> bool {
    match event {
        RoundEvent::Evaluated { same: true } => {
            &&& takes(before, after, round.parent, round.last(), result)
            &&& left == RoundView {
                awaiting: false,
                done: result is Ok && !before.settings.chaos_mode,
                ..round
            }
        },
        _ => if round.done {
            &&& result == Ok::<RoundActionView, StackingError>(RoundActionView::Finish)
            &&& after == before
            &&& left == round
        } else {
            searches(before, after, round, left, result)
        },
    }
}

/// The contents of what a step came to.
pub open spec fn action_result_view(
    result: Result<RoundAction, StackingError>,
) -> Result<RoundActionView, StackingError> {
    match result {
        Ok(action) => Ok(action@),
        Err(error) => Err(error),
    }
}

/// Whether a machine code is news: it is not the original's, and it was not
/// noted before.
pub open spec fn is_news(search: StackingView, hash: Seq<u8>, original_hash: Seq<u8>) -> bool {
    hash != original_hash && !search.machine_codes.contains_key(hash)
}

/// When a machine code cannot be looked up, or cannot be noted though it is
/// news.
pub open spec fn noting_fails(
    search: StackingView,
    hash: Seq<u8>,
    original_hash: Seq<u8>,
    error: StackingError,
) -> bool {
    ||| {
        &&& error == StackingError::Cache(CacheError::Read)
        &&& hash != original_hash
        &&& crate::cache::lookup_outcome(search.machine_codes, hash, None)
    }
    ||| {
        &&& error == StackingError::Cache(CacheError::Write)
        &&& is_news(search, hash, original_hash)
        &&& crate::cache::insert_outcome(search.machine_codes, hash, Seq::empty(), false)
    }
}

/// The search with a machine code noted.
pub open spec fn noted(search: StackingView, hash: Seq<u8>) -> StackingView {
    StackingView { machine_codes: search.machine_codes.insert(hash, Seq::empty()), ..search }
}

/// How a round begins for a seed: with the variants that the mutator makes of
/// the module at hand, none of them looked at.
pub open spec fn begins(
    search: StackingView,
    seed: u64,
    result: Result<RoundView, MutationError>,
) -> bool {
    let outcome = |list: Option<Seq<Option<Seq<u8>>>>|
        crate::mutation::mutation_outcome(
            search.current,
            !search.settings.no_preserve_semantics,
            seed,
            limit_of(search.settings.chaos_mode, search.settings.variants_per_parent) as nat,
            list,
        );
    match result {
        Ok(round) => {
            &&& outcome(Some(round.variants))
            &&& round.variants.len() <= limit_of(
                search.settings.chaos_mode,
                search.settings.variants_per_parent,
            )
            &&& round == RoundView {
                parent: search.current,
                variants: round.variants,
                position: 0,
                awaiting: false,
                unchecked: false,
                done: false,
            }
        },
        Err(error) => error == MutationError::NotMutated && outcome(None),
    }
}

/// Whether enough variants have been stacked. Among random parents there is no
/// end.
pub open spec fn is_finished(search: StackingView) -> bool {
    !search.settings.chaos_mode && search.index >= search.settings.count
}

/// The contents of what the beginning of a round came to.
pub open spec fn round_result_view(
    result: Result<Round, MutationError>,
) -> Result<RoundView, MutationError> {
    match result {
        Ok(round) => Ok(round@),
        Err(error) => Err(error),
    }
}

impl Stacking {
    /// The generator of all random draws.
    pub open spec fn generator(&self) -> rand::rngs::SmallRng {
        self@.generator
    }

    /// Sets up a search that starts from `current` over caches that are open.
    /// `original_state` is what an execution of the original came to.
    pub fn over(
        current: Vec<u8>,
        count: usize,
        step: usize,
        seed: u64,
        hashes: Cache,
        mc_hashes: Cache,
        check_args: Vec<String>,
        check_io: bool,
        fuel: u64,
        chaos_mode: bool,
        check_mem: bool,
        variants_per_parent: usize,
        save_compiling: bool,
        no_preserve_semantics: bool,
        args_generator: Option<String>,
        oracle: Option<String>,
        original_state: Option<ExecutionResult>,
    ) -> (search: Self)
        ensures
            search@ == (StackingView {
                current: current@,
                current_index: 0,
                index: 0,
                step,
                entries: hashes@,
                machine_codes: mc_hashes@,
                generator: crate::chance::generator_of(seed),
                settings: Settings {
                    original: current@,
                    check_args: crate::text::texts(check_args@),
                    original_state: crate::execution::execution_view(original_state),
                    fuel,
                    count,
                    check_io,
                    check_mem,
                    chaos_mode,
                    variants_per_parent,
                    no_preserve_semantics,
                    save_compiling,
                    args_generator: crate::evaluation::optional_text(args_generator),
                    oracle: crate::evaluation::optional_text(oracle),
                    cache_path: hashes.path(),
                    mc_cache_path: mc_hashes.path(),
                },
            }),
    {
        let original: Vec<u8> = copy_bytes(&current);
        Stacking {
            current: (current, 0),
            original,
            check_args,
            original_state,
            index: 0,
            step,
            fuel,
            count,
            rnd: seeded_rng(seed),
            check_io,
            check_mem,
            hashes,
            mc_hashes,
            chaos_mode,
            variants_per_parent,
            no_preserve_semantics,
            save_compiling,
            args_generator,
            oracle,
        }
    }

    /// Sets up a search that starts from `current`. The variants are cached in
    /// `cache_dir`, the machine codes beside it.
    pub fn new(
        current: Vec<u8>,
        count: usize,
        step: usize,
        seed: u64,
        cache_dir: String,
        check_args: Vec<String>,
        check_io: bool,
        fuel: u64,
        chaos_mode: bool,
        check_mem: bool,
        variants_per_parent: usize,
        save_compiling: bool,
        no_preserve_semantics: bool,
        args_generator: Option<String>,
        oracle: Option<String>,
        original_state: Option<ExecutionResult>,
    ) -> (search: Result<Self, StackingError>)
        ensures
            search matches Ok(search) ==> search@ == (StackingView {
                current: current@,
                current_index: 0,
                index: 0,
                step,
                entries: search@.entries,
                machine_codes: search@.machine_codes,
                generator: crate::chance::generator_of(seed),
                settings: Settings {
                    original: current@,
                    check_args: crate::text::texts(check_args@),
                    original_state: crate::execution::execution_view(original_state),
                    fuel,
                    count,
                    check_io,
                    check_mem,
                    chaos_mode,
                    variants_per_parent,
                    no_preserve_semantics,
                    save_compiling,
                    args_generator: crate::evaluation::optional_text(args_generator),
                    oracle: crate::evaluation::optional_text(oracle),
                    cache_path: cache_dir@,
                    mc_cache_path: cache_dir@ + ".mc"@,
                },
            }),
            search matches Err(error) ==> error == StackingError::Cache(CacheError::Open) && (
            crate::cache::open_outcome(cache_dir@, crate::cache::CACHE_CAPACITY, false)
                || crate::cache::open_outcome(
                cache_dir@ + ".mc"@,
                crate::cache::CACHE_CAPACITY,
                false,
            )),
    {
        let mut mc_cache_dir: String = cache_dir.clone();
        mc_cache_dir.append(".mc");
        let hashes: Cache = match Cache::open(cache_dir.as_str()) {
            Ok(cache) => cache,
            Err(error) => return Err(StackingError::Cache(error)),
        };
        let mc_hashes: Cache = match Cache::open(mc_cache_dir.as_str()) {
            Ok(cache) => cache,
            Err(error) => return Err(StackingError::Cache(error)),
        };
        let search = Stacking::over(
            current,
            count,
            step,
            seed,
            hashes,
            mc_hashes,
            check_args,
            check_io,
            fuel,
            chaos_mode,
            check_mem,
            variants_per_parent,
            save_compiling,
            no_preserve_semantics,
            args_generator,
            oracle,
            original_state,
        );
        Ok(search)
    }

    /// Begins a round with the given seed for the mutator.
    pub fn begin_with(&self, seed: u64) -> (round: Result<Round, MutationError>)
        requires
            crate::mutation::mutator_returns(self@.current),
        ensures
            begins(self@, seed, round_result_view(round)),
            round matches Ok(round) ==> round@.well_formed(),
    {
        match mutate(
            &self.current.0,
            !self.no_preserve_semantics,
            seed,
            variants_limit(self.chaos_mode, self.variants_per_parent),
        ) {
            Ok(variants) => {
                let parent: Vec<u8> = copy_bytes(&self.current.0);
                let round = Round {
                    parent,
                    variants,
                    position: 0,
                    awaiting: false,
                    unchecked: false,
                    done: false,
                };
                Ok(round)
            },
            Err(error) => Err(error),
        }
    }

    /// Begins a round with the seed for the mutator that the generator draws
    /// next.
    pub fn begin(&mut self) -> (round: Result<Round, MutationError>)
        requires
            crate::mutation::mutator_returns(old(self)@.current),
        ensures
            final(self)@ == seed_drawn(old(self)@),
            begins(
                old(self)@,
                crate::chance::next_seed(old(self)@.generator),
                round_result_view(round),
            ),
            round matches Ok(round) ==> round@.well_formed(),
    {
        let seed: u64 = draw_seed(&mut self.rnd);
        self.begin_with(seed)
    }

    /// Begins a round as [`Stacking::begin`] does if the module at hand is
    /// valid.
    pub fn begin_valid(&mut self) -> (round: Result<Round, MutationError>)
        ensures
            if crate::mutation::is_valid_module(old(self)@.current) {
                &&& final(self)@ == seed_drawn(old(self)@)
                &&& begins(
                    old(self)@,
                    crate::chance::next_seed(old(self)@.generator),
                    round_result_view(round),
                )
            } else {
                &&& final(self)@ == old(self)@
                &&& round_result_view(round) == Err::<RoundView, MutationError>(
                    MutationError::InvalidModule,
                )
            },
            round matches Ok(round) ==> round@.well_formed(),
    {
        if is_valid(&self.current.0) {
            self.begin()
        } else {
            Err(MutationError::InvalidModule)
        }
    }

    /// Whether enough variants have been stacked. Among random parents there
    /// is no end.
    pub fn finished(&self) -> (over: bool)
        ensures
            over == (!self@.settings.chaos_mode && self@.index >= self@.settings.count),
            over == is_finished(self@),
    {
        !self.chaos_mode && self.index >= self.count
    }

    /// The comparison of a variant with the original, before its first step.
    pub fn evaluation(&self) -> (comparison: Evaluation)
        ensures
            comparison@ == (crate::evaluation::EvaluationView::Initial {
                args: self@.settings.check_args,
                generator: self@.settings.args_generator,
            }),
    {
        let args: Vec<String> = copy_args(&self.check_args);
        let generator: Option<String> = match &self.args_generator {
            Some(command) => Some(command.clone()),
            None => None,
        };
        Evaluation::Initial { args, generator }
    }

    /// Takes note of the hash of a machine code. Says whether it is news: it is
    /// not the original's, and it was not noted before.
    pub fn note_machine_code(&mut self, hash: &Vec<u8>, original_hash: &Vec<u8>) -> (news: Result<
        bool,
        StackingError,
    >)
        ensures
            match news {
                Ok(true) => is_news(old(self)@, hash@, original_hash@) && final(self)@ == noted(
                    old(self)@,
                    hash@,
                ),
                Ok(false) => !is_news(old(self)@, hash@, original_hash@) && final(self)@
                    == old(self)@,
                Err(error) => noting_fails(old(self)@, hash@, original_hash@, error) && (error
                    == StackingError::Cache(CacheError::Read) ==> final(self)@ == old(self)@),
            },
            final(self)@ == (StackingView {
                machine_codes: final(self)@.machine_codes,
                ..old(self)@
            }),
    {
        if !is_new_code(hash, original_hash, false) {
            return Ok(false);
        }
        let was_noted: bool = match self.mc_hashes.contains_key(hash) {
            Ok(there) => there,
            Err(error) => return Err(StackingError::Cache(error)),
        };
        if !is_new_code(hash, original_hash, was_noted) {
            return Ok(false);
        }
        let nothing: Vec<u8> = Vec::new();
        match self.mc_hashes.insert(hash, nothing) {
            Ok(()) => {
                assert(self@.machine_codes =~= old(self)@.machine_codes.insert(
                    hash@,
                    Seq::empty(),
                ));
                Ok(true)
            },
            Err(error) => Err(StackingError::Cache(error)),
        }
    }

    /// The index of the next variant's parent.
    pub fn index(&self) -> (index: usize)
        ensures
            index == self@.index,
    {
        self.index
    }

    /// Every how many variants one is reported.
    pub fn step(&self) -> (step: usize)
        ensures
            step == self@.step,
    {
        self.step
    }

    /// Whether parents are random.
    pub fn chaos_mode(&self) -> (chaos: bool)
        ensures
            chaos == self@.settings.chaos_mode,
    {
        self.chaos_mode
    }

    /// Whether the machine code of reported variants is saved.
    pub fn save_compiling(&self) -> (save: bool)
        ensures
            save == self@.settings.save_compiling,
    {
        self.save_compiling
    }

    /// The command of the oracle.
    pub fn oracle(&self) -> (oracle: &Option<String>)
        ensures
            crate::evaluation::optional_text(*oracle) == self@.settings.oracle,
    {
        &self.oracle
    }

    /// The module that the search started from.
    pub fn original(&self) -> (wasm: &Vec<u8>)
        ensures
            wasm@ == self@.settings.original,
    {
        &self.original
    }

    /// The module at hand.
    pub fn current(&self) -> (wasm: &Vec<u8>)
        ensures
            wasm@ == self@.current,
    {
        &self.current.0
    }

    /// The execution of the original.
    pub fn original_state(&self) -> (execution: &Option<ExecutionResult>)
        ensures
            crate::execution::execution_view(*execution) == self@.settings.original_state,
    {
        &self.original_state
    }

    /// Makes an entry of the cache the module at hand, given what came of
    /// reading it. Says whether there was one to read.
    pub fn adopt_entry(
        &mut self,
        entry: Result<Option<(Vec<u8>, Vec<u8>)>, CacheError>,
    ) -> (read: Result<bool, StackingError>)
        ensures
            match entry {
                Ok(Some((_, value))) => if is_adoptable(value@) {
                    read == Ok::<bool, StackingError>(true) && final(self)@ == adopted(
                        old(self)@,
                        value@,
                    )
                } else {
                    read == Err::<bool, StackingError>(adoption_error(value@)) && final(self)@
                        == old(self)@
                },
                _ => read == Ok::<bool, StackingError>(false) && final(self)@ == old(self)@,
            },
    {
        match entry {
            Ok(Some((_key, value))) => {
                match decode_record(value.as_slice()) {
                    Some((wasm, index)) => {
                        if index == usize::MAX {
                            return Err(StackingError::IndexOverflow);
                        }
                        self.current = (wasm, index);
                        self.index = index + 1;
                        Ok(true)
                    },
                    None => Err(StackingError::CorruptRecord),
                }
            },
            _ => Ok(false),
        }
    }

    /// Makes an entry of the cache the module at hand: the one that the draw
    /// picks. Says whether it could be read.
    pub fn adopt_parent(&mut self, draw: usize) -> (read: Result<bool, StackingError>)
        requires
            draw < old(self)@.entries.len(),
        ensures
            match read {
                Ok(true) => is_adoptable(drawn_entry(old(self)@, draw as nat)) && final(self)@
                    == adopted(old(self)@, drawn_entry(old(self)@, draw as nat)),
                Ok(false) => final(self)@ == old(self)@ && crate::cache::is_unreadable(
                    old(self)@.entries,
                ),
                Err(error) => !is_adoptable(drawn_entry(old(self)@, draw as nat)) && error
                    == adoption_error(drawn_entry(old(self)@, draw as nat)) && final(self)@
                    == old(self)@,
            },
    {
        let entry = self.hashes.entry_at(draw);
        self.adopt_entry(entry)
    }

    /// Does what is to be done once a variant is accepted among random parents,
    /// given what came of counting the cached variants and of reading the one
    /// that was drawn.
    pub fn settle_drawn(
        &mut self,
        parent: Vec<u8>,
        variant: Vec<u8>,
        count: Result<usize, CacheError>,
        entry: Result<Option<(Vec<u8>, Vec<u8>)>, CacheError>,
    ) -> (result: Result<RoundAction, StackingError>)
        ensures
            settles_drawn(
                old(self)@,
                final(self)@,
                parent@,
                variant@,
                count,
                entry,
                action_result_view(result),
            ),
    {
        let count: usize = match count {
            Ok(count) => count,
            Err(_) => return Ok(RoundAction::Unreadable),
        };
        if count == 0 {
            return Err(StackingError::EmptyCache);
        }
        match self.adopt_entry(entry) {
            Ok(true) => Ok(RoundAction::Report { variant, parent, count }),
            Ok(false) => Ok(RoundAction::Unreadable),
            Err(error) => Err(error),
        }
    }

    /// Does what is to be done once a variant is accepted and in the cache.
    pub fn settle(&mut self, parent: Vec<u8>, variant: Vec<u8>) -> (result: Result<
        RoundAction,
        StackingError,
    >)
        ensures
            match result {
                Ok(action) => settles(old(self)@, final(self)@, parent@, variant@, action@),
                Err(error) => settling_fails(old(self)@, final(self)@, error),
            },
    {
        if self.chaos_mode {
            let ghost before = self@;
            let count = self.hashes.len();
            let entry = match &count {
                Ok(n) => {
                    if *n == 0 {
                        Ok(None)
                    } else {
                        let draw: usize = draw_below(&mut self.rnd, *n);
                        assert(self@ == position_drawn(before));
                        let entry = self.hashes.entry_at(draw);
                        assert(entry matches Ok(Some((key, value))) ==> value@ == drawn_entry(
                            before,
                            draw as nat,
                        ));
                        entry
                    }
                },
                Err(_) => Ok(None),
            };
            self.settle_drawn(parent, variant, count, entry)
        } else {
            if self.index == usize::MAX {
                return Err(StackingError::IndexOverflow);
            }
            if self.step == 0 {
                return Err(StackingError::ZeroStep);
            }
            let count: usize = self.index + 1;
            self.current = (copy_bytes(&variant), count);
            self.index = count;
            if count % self.step == 0 {
                Ok(RoundAction::Report { variant, parent, count })
            } else {
                Ok(RoundAction::Finish)
            }
        }
    }

    /// Accepts a variant: puts it into the cache, and does what is to be done
    /// then.
    fn accept(&mut self, parent: Vec<u8>, variant: Vec<u8>) -> (result: Result<
        RoundAction,
        StackingError,
    >)
        ensures
            takes(old(self)@, final(self)@, parent@, variant@, action_result_view(result)),
    {
        let hash: Vec<u8> = content_hash(&variant);
        let bytes: Vec<u8> = encode_record(self.index, &variant);
        match self.hashes.insert(&hash, bytes) {
            Ok(()) => {},
            Err(error) => return Err(StackingError::Cache(error)),
        }
        assert(self@ == recorded(old(self)@, variant@));
        self.settle(parent, variant)
    }

    /// What the search does with a variant, given what the cache says of its
    /// hash.
    pub fn consider(&self, found: &Result<bool, CacheError>) -> (next: Consideration)
        ensures
            next == considered(self@.settings, *found),
    {
        if !is_worth_trying(found) {
            Consideration::PassOver
        } else if !self.check_io {
            Consideration::Accept
        } else if self.original_state.is_none() {
            Consideration::Refuse
        } else {
            Consideration::Compare
        }
    }

    /// Looks for the next variant to do something with.
    fn search(&mut self, round: &mut Round) -> (result: Result<RoundAction, StackingError>)
        requires
            old(round)@.well_formed(),
            !old(round)@.awaiting,
            !old(round)@.done,
        ensures
            searches(
                old(self)@,
                final(self)@,
                old(round)@,
                final(round)@,
                action_result_view(result),
            ),
            final(round)@.well_formed(),
            final(round)@.parent == old(round)@.parent,
            final(round)@.variants == old(round)@.variants,
    {
        let ghost before = self@;
        let ghost entry = round@;
        while round.position < round.variants.len()
            invariant
                self@ == before,
                before == old(self)@,
                entry == old(round)@,
                round@.parent == entry.parent,
                round@.variants == entry.variants,
                entry.position <= round.position <= round.variants@.len(),
                !round.awaiting,
                !round.done,
                passed_over(before, entry.variants, entry.position, round.position as nat),
            decreases round.variants@.len() - round.position,
        {
            let position: usize = round.position;
            assert(entry.variants[position as int] == match round.variants@[position as int] {
                Some(variant) => Some(variant@),
                None => None,
            });
            let variant: Vec<u8> = match &round.variants[position] {
                Some(variant) => copy_bytes(variant),
                None => {
                    round.position = position + 1;
                    continue;
                },
            };
            let hash: Vec<u8> = content_hash(&variant);
            let found = self.hashes.contains_key(&hash);
            round.position = position + 1;
            let next: Consideration = self.consider(&found);
            if let Consideration::PassOver = next {
                continue;
            }
            round.unchecked = found.is_err();
            assert(comes_upon(before, entry, round@));
            assert(round@.last() == variant@);
            match next {
                Consideration::Compare => {
                    round.awaiting = true;
                    return Ok(RoundAction::Evaluate { variant });
                },
                Consideration::Accept => {
                    let parent: Vec<u8> = copy_bytes(&round.parent);
                    let result = self.accept(parent, variant);
                    if !self.chaos_mode && result.is_ok() {
                        round.done = true;
                    }
                    return result;
                },
                _ => return Err(StackingError::OriginalNotExecuted),
            }
        }
        assert(runs_out(before, entry, round@));
        Ok(RoundAction::Finish)
    }

    /// Takes a round one step further.
    pub fn next(&mut self, round: &mut Round, event: RoundEvent) -> (result: Result<
        RoundAction,
        StackingError,
    >)
        requires
            old(round)@.well_formed(),
            old(round)@.expects(event),
        ensures
            round_step(
                old(self)@,
                final(self)@,
                old(round)@,
                final(round)@,
                event,
                action_result_view(result),
            ),
            final(round)@.well_formed(),
            final(round)@.parent == old(round)@.parent,
            final(round)@.variants == old(round)@.variants,
            final(round)@.awaiting == (result matches Ok(RoundAction::Evaluate { .. })),
            final(self)@.settings == old(self)@.settings,
            final(self)@.step == old(self)@.step,
            final(self)@.machine_codes == old(self)@.machine_codes,
    {
        match event {
            RoundEvent::Resume => {
                if round.done {
                    return Ok(RoundAction::Finish);
                }
                self.search(round)
            },
            RoundEvent::Evaluated { same } => {
                round.awaiting = false;
                if !same {
                    return self.search(round);
                }
                let last: usize = round.position - 1;
                assert(old(round)@.variants[last as int] == match round.variants@[last as int] {
                    Some(variant) => Some(variant@),
                    None => None,
                });
                let variant: Vec<u8> = match &round.variants[last] {
                    Some(variant) => copy_bytes(variant),
                    None => Vec::new(),
                };
                let parent: Vec<u8> = copy_bytes(&round.parent);
                let result = self.accept(parent, variant);
                if !self.chaos_mode && result.is_ok() {
                    round.done = true;
                }
                result
            },
        }
    }
}

/// A machine code is news at most once.
pub proof fn law_machine_code_is_news_once(
    search: StackingView,
    hash: Seq<u8>,
    original_hash: Seq<u8>,
)
    ensures
        !is_news(noted(search, hash), hash, original_hash),
        !is_news(search, original_hash, original_hash),
{
}

/// The variants and the machine codes are cached apart from each other.
pub proof fn law_caches_stay_apart(cache_dir: Seq<char>)
    ensures
        cache_dir != cache_dir + ".mc"@,
{
    reveal_strlit(".mc");
    assert((cache_dir + ".mc"@).len() == cache_dir.len() + 3);
}

/// A round comes to an end: every step looks at one more variant or takes note
/// of a comparison, and the number of variants is fixed.
pub proof fn law_round_ends(
    before: StackingView,
    after: StackingView,
    round: RoundView,
    left: RoundView,
    event: RoundEvent,
    action: RoundActionView,
)
    requires
        round.well_formed(),
        round.expects(event),
        left.variants == round.variants,
        round_step(before, after, round, left, event, Ok(action)),
        !(action is Finish),
    ensures
        steps_left(left) < steps_left(round),
{
}

/// How many steps a round may still take.
pub open spec fn steps_left(round: RoundView) -> int {
    2 * (round.variants.len() - round.position) + if round.awaiting {
        1int
    } else {
        0
    }
}

/// No key ever leaves the cache, as long as it can be written to.
pub proof fn law_cache_never_forgets(
    before: StackingView,
    after: StackingView,
    round: RoundView,
    left: RoundView,
    event: RoundEvent,
    result: Result<RoundActionView, StackingError>,
    hash: Seq<u8>,
)
    requires
        round_step(before, after, round, left, event, result),
        result != Err::<RoundActionView, StackingError>(StackingError::Cache(CacheError::Write)),
        before.entries.contains_key(hash),
    ensures
        after.entries.contains_key(hash),
{
}

/// The variant that a step of a round was about: the one that was compared, or
/// the one that was come upon.
pub open spec fn variant_at_hand(round: RoundView, left: RoundView, event: RoundEvent) -> Seq<u8> {
    if event matches RoundEvent::Evaluated { same: true } {
        round.last()
    } else {
        left.last()
    }
}

/// The variant that a step of a round accepted, if it accepted one: a variant
/// that was found to be the same as the original or, where variants are not to
/// be compared, one that is new.
pub open spec fn accepted_variant(
    before: StackingView,
    round: RoundView,
    left: RoundView,
    event: RoundEvent,
    result: Result<RoundActionView, StackingError>,
) -> Option<Seq<u8>> {
    if event matches RoundEvent::Evaluated { same: true } {
        Some(round.last())
    } else if before.settings.check_io || round.done || (result
        == Ok::<RoundActionView, StackingError>(RoundActionView::Finish) && !left.done) {
        None
    } else {
        Some(left.last())
    }
}

/// A variant that is accepted is in the cache afterwards, with the index of its
/// parent, whether it was compared with the original or not.
pub proof fn law_accepted_variant_is_cached(
    before: StackingView,
    after: StackingView,
    round: RoundView,
    left: RoundView,
    event: RoundEvent,
    result: Result<RoundActionView, StackingError>,
    variant: Seq<u8>,
)
    requires
        round_step(before, after, round, left, event, result),
        result != Err::<RoundActionView, StackingError>(StackingError::Cache(CacheError::Write)),
        accepted_variant(before, round, left, event, result) == Some(variant),
    ensures
        after.entries.contains_key(crate::digest::blake3_of(variant)),
        after.entries[crate::digest::blake3_of(variant)] == crate::record::record(
            before.index as nat,
            variant,
        ),
{
}

/// Nothing changes in a step that accepts no variant.
pub proof fn law_only_accepting_changes_the_search(
    before: StackingView,
    after: StackingView,
    round: RoundView,
    left: RoundView,
    event: RoundEvent,
    result: Result<RoundActionView, StackingError>,
)
    requires
        round_step(before, after, round, left, event, result),
        accepted_variant(before, round, left, event, result) is None,
    ensures
        after == before,
        !(result matches Ok(RoundActionView::Report { .. })),
{
}

/// Where variants are not compared, a variant that was accepted once is not
/// accepted again, in the same round or in a later one: its hash stays in the
/// cache, and a step accepts only what is not there, unless the cache cannot
/// be read.
pub proof fn law_nothing_is_accepted_twice(
    before: StackingView,
    after: StackingView,
    round: RoundView,
    left: RoundView,
    event: RoundEvent,
    result: Result<RoundActionView, StackingError>,
    variant: Seq<u8>,
)
    requires
        !before.settings.check_io,
        !round.awaiting,
        round.expects(event),
        round_step(before, after, round, left, event, result),
        !left.unchecked,
        before.entries.contains_key(crate::digest::blake3_of(variant)),
    ensures
        accepted_variant(before, round, left, event, result) != Some(variant),
{
}

/// Where parents are random there is always one to draw: the variant that was
/// just accepted is in the cache.
pub proof fn law_a_parent_can_be_drawn(
    before: StackingView,
    after: StackingView,
    round: RoundView,
    left: RoundView,
    event: RoundEvent,
    error: StackingError,
)
    requires
        before.entries.dom().finite(),
        round_step(before, after, round, left, event, Err(error)),
    ensures
        error != StackingError::EmptyCache,
{
    let cached = recorded(before, variant_at_hand(round, left, event));
    assert(cached.entries.dom() =~= before.entries.dom().insert(
        crate::digest::blake3_of(variant_at_hand(round, left, event)),
    ));
}

/// Where parents are random and the cache can be read, every variant that is
/// accepted is reported.
pub proof fn law_readable_cache_reports_every_variant(
    before: StackingView,
    after: StackingView,
    round: RoundView,
    left: RoundView,
    event: RoundEvent,
    action: RoundActionView,
    variant: Seq<u8>,
)
    requires
        before.settings.chaos_mode,
        round_step(before, after, round, left, event, Ok(action)),
        accepted_variant(before, round, left, event, Ok(action)) == Some(variant),
        !cannot_be_drawn_from(recorded(before, variant)),
    ensures
        action matches RoundActionView::Report { variant: reported, parent, .. } && reported
            == variant && parent == round.parent,
{
}

/// The first variant that is accepted over an empty cache becomes the parent of
/// the next ones, whatever is drawn, provided that the cache can be read.
pub proof fn law_first_variant_becomes_the_parent(
    before: StackingView,
    after: StackingView,
    parent: Seq<u8>,
    variant: Seq<u8>,
    draw: nat,
    count: usize,
    key: Vec<u8>,
    value: Vec<u8>,
    result: Result<RoundActionView, StackingError>,
)
    requires
        before.entries == Map::<Seq<u8>, Seq<u8>>::empty(),
        before.index < usize::MAX,
        count == recorded(before, variant).entries.len(),
        draw < count,
        value@ == drawn_entry(recorded(before, variant), draw),
        settles_drawn(
            recorded(before, variant),
            after,
            parent,
            variant,
            Ok(count),
            Ok(Some((key, value))),
            result,
        ),
    ensures
        result == Ok::<RoundActionView, StackingError>(
            RoundActionView::Report { variant, parent, count: 1 },
        ),
        after.current == variant,
        after.current_index == before.index,
        after.index == before.index + 1,
{
    let cached = recorded(before, variant);
    let hash = crate::digest::blake3_of(variant);
    assert(cached.entries.dom() =~= Set::<Seq<u8>>::empty().insert(hash));
    crate::cache::law_each_position_is_taken(cached.entries, draw);
    assert(crate::cache::key_at(cached.entries, draw) == hash);
    crate::record::law_record_read_back(before.index, variant);
}

/// Whether every entry of a cache is the record of the variant whose hash is its
/// key.
pub open spec fn is_sound(entries: Map<Seq<u8>, Seq<u8>>) -> bool {
    forall|hash: Seq<u8>| #[trigger]
        entries.contains_key(hash) ==> crate::record::is_record(entries[hash])
            && crate::digest::blake3_of(crate::record::record_wasm(entries[hash])) == hash
}

/// A search puts nothing but records of variants into its cache, each under the
/// hash of its variant.
pub proof fn law_cache_stays_sound(
    before: StackingView,
    after: StackingView,
    round: RoundView,
    left: RoundView,
    event: RoundEvent,
    result: Result<RoundActionView, StackingError>,
)
    requires
        round_step(before, after, round, left, event, result),
        result != Err::<RoundActionView, StackingError>(StackingError::Cache(CacheError::Write)),
        is_sound(before.entries),
    ensures
        is_sound(after.entries),
{
    crate::record::law_record_read_back(before.index, variant_at_hand(round, left, event));
}

/// A search over a sound cache never finds a corrupt record in it.
pub proof fn law_sound_cache_is_not_corrupt(
    before: StackingView,
    after: StackingView,
    round: RoundView,
    left: RoundView,
    event: RoundEvent,
    error: StackingError,
)
    requires
        round_step(before, after, round, left, event, Err(error)),
        is_sound(before.entries),
        before.entries.dom().finite(),
    ensures
        error != StackingError::CorruptRecord,
{
    crate::record::law_record_read_back(before.index, variant_at_hand(round, left, event));
    let settled = recorded(before, variant_at_hand(round, left, event));
    assert forall|draw: nat| draw < settled.entries.len() implies crate::record::is_record(
        #[trigger] drawn_entry(settled, draw),
    ) by {
        crate::cache::law_each_position_is_taken(settled.entries, draw);
    }
}

/// Where variants are to be compared with the original, the search takes none
/// that was not found to be the same: nothing is stacked, cached, drawn or
/// reported without that.
pub proof fn law_checked_search_takes_only_the_same(
    before: StackingView,
    after: StackingView,
    round: RoundView,
    left: RoundView,
    event: RoundEvent,
    result: Result<RoundActionView, StackingError>,
)
    requires
        before.settings.check_io,
        round_step(before, after, round, left, event, result),
        after != before || result matches Ok(RoundActionView::Report { .. }),
    ensures
        event == (RoundEvent::Evaluated { same: true }),
{
}

/// A variant in the cache is not worked on again: neither compared, nor
/// stacked, nor reported, unless the cache could not be read.
pub proof fn law_cached_variant_is_not_taken_again(
    before: StackingView,
    after: StackingView,
    round: RoundView,
    left: RoundView,
    event: RoundEvent,
    action: RoundActionView,
)
    requires
        round.well_formed(),
        round_step(before, after, round, left, event, Ok(action)),
        !(event matches RoundEvent::Evaluated { same: true }),
        !left.unchecked,
    ensures
        action matches RoundActionView::Evaluate { variant } ==> !before.entries.contains_key(
            crate::digest::blake3_of(variant),
        ),
        action matches RoundActionView::Report { variant, .. } ==> !before.entries.contains_key(
            crate::digest::blake3_of(variant),
        ),
        !before.settings.chaos_mode && after != before ==> !before.entries.contains_key(
            crate::digest::blake3_of(after.current),
        ),
{
}

/// Where variants are stacked, a step either leaves the search where it is or
/// puts exactly one variant on top, which ends the round.
pub proof fn law_stacking_goes_one_up(
    before: StackingView,
    after: StackingView,
    round: RoundView,
    left: RoundView,
    event: RoundEvent,
    action: RoundActionView,
)
    requires
        !before.settings.chaos_mode,
        round.well_formed(),
        round.expects(event),
        round_step(before, after, round, left, event, Ok(action)),
    ensures
        if left.done && !round.done {
            &&& after.index == before.index + 1
            &&& after.current_index == after.index
            &&& after.current == left.last()
        } else {
            &&& after.index == before.index
            &&& after.current == before.current
            &&& after.entries == before.entries
        },
{
}

/// Where variants are stacked, a search that has not got enough of them never
/// gets more than enough.
pub proof fn law_stacking_does_not_overshoot(
    before: StackingView,
    after: StackingView,
    round: RoundView,
    left: RoundView,
    event: RoundEvent,
    result: Result<RoundActionView, StackingError>,
)
    requires
        !before.settings.chaos_mode,
        before.index < before.settings.count,
        round_step(before, after, round, left, event, result),
    ensures
        after.index <= after.settings.count,
        after.settings == before.settings,
{
}

/// Where variants are stacked, exactly those whose index is a multiple of the
/// step are reported, each under its index and with the module it was made of.
pub proof fn law_stacking_reports_every_step(
    before: StackingView,
    after: StackingView,
    round: RoundView,
    left: RoundView,
    event: RoundEvent,
    action: RoundActionView,
)
    requires
        !before.settings.chaos_mode,
        round.well_formed(),
        round.expects(event),
        round_step(before, after, round, left, event, Ok(action)),
    ensures
        action is Report <==> left.done && !round.done && after.index % after.step == 0,
        action is Report ==> action == (RoundActionView::Report {
            variant: after.current,
            parent: round.parent,
            count: after.index as nat,
        }),
{
}

/// Where parents are random, every report leaves a variant out of the cache as
/// the module at hand, under the index that was kept with it.
pub proof fn law_random_parent_is_cached(
    before: StackingView,
    after: StackingView,
    round: RoundView,
    left: RoundView,
    event: RoundEvent,
    action: RoundActionView,
)
    requires
        before.settings.chaos_mode,
        before.entries.dom().finite(),
        round_step(before, after, round, left, event, Ok(action)),
        action is Report,
    ensures
        exists|hash: Seq<u8>| #[trigger]
            after.entries.contains_key(hash) && after.entries[hash] == crate::record::record(
                after.current_index as nat,
                after.current,
            ),
        after.index == after.current_index + 1,
        action->Report_count == after.entries.len(),
{
    let settled = recorded(before, variant_at_hand(round, left, event));
    assert(settled.entries.dom().finite());
    let draw = next_position(settled);
    crate::cache::law_each_position_is_taken(settled.entries, draw);
    let hash = crate::cache::key_at(settled.entries, draw);
    assert(after.entries.contains_key(hash));
    crate::record::law_record_written_back(after.entries[hash]);
}

/// A step of a round draws nothing or one position among the cached variants,
/// and the latter only where parents are random.
pub proof fn law_step_draws_at_most_once(
    before: StackingView,
    after: StackingView,
    round: RoundView,
    left: RoundView,
    event: RoundEvent,
    result: Result<RoundActionView, StackingError>,
)
    requires
        round_step(before, after, round, left, event, result),
    ensures
        after.generator == before.generator || (before.settings.chaos_mode && after.generator
            == crate::chance::after_below(before.generator, after.entries.len() as usize)),
        result matches Ok(RoundActionView::Report { .. }) && before.settings.chaos_mode
            ==> after.current == crate::record::record_wasm(
            drawn_entry(
                after,
                crate::chance::next_below(before.generator, after.entries.len() as usize) as nat,
            ),
        ),
{
}

/// Two searches that were set up with one seed, and have drawn for the same
/// purposes since, draw the same seed next, and the same position among equally
/// many cached variants.
pub proof fn law_one_seed_draws_alike(
    seed: u64,
    draws: Seq<crate::chance::Draw>,
    a: StackingView,
    b: StackingView,
)
    requires
        a.generator == crate::chance::after_draws(crate::chance::generator_of(seed), draws),
        b.generator == crate::chance::after_draws(crate::chance::generator_of(seed), draws),
    ensures
        crate::chance::next_seed(a.generator) == crate::chance::next_seed(b.generator),
        seed_drawn(a).generator == seed_drawn(b).generator,
        seed_drawn(a).generator == crate::chance::after_draws(
            crate::chance::generator_of(seed),
            draws.push(crate::chance::Draw::Seed),
        ),
        a.entries.len() == b.entries.len() ==> {
            &&& next_position(a) == next_position(b)
            &&& position_drawn(a).generator == position_drawn(b).generator
            &&& position_drawn(a).generator == crate::chance::after_draws(
                crate::chance::generator_of(seed),
                draws.push(crate::chance::Draw::Below { bound: a.entries.len() as usize }),
            )
        },
{
    assert(draws.push(crate::chance::Draw::Seed).drop_last() =~= draws);
    assert(draws.push(
        crate::chance::Draw::Below { bound: a.entries.len() as usize },
    ).drop_last() =~= draws);
}

/// One step of a search in the course of a run.
pub struct SearchStep {
    pub before: StackingView,
    pub after: StackingView,
    pub round: RoundView,
    pub left: RoundView,
    pub event: RoundEvent,
    pub result: Result<RoundActionView, StackingError>,
}

/// Whether a step is one that a search can take.
pub open spec fn is_step(step: SearchStep) -> bool {
    &&& step.round.well_formed()
    &&& step.round.expects(step.event)
    &&& round_step(
        step.before,
        step.after,
        step.round,
        step.left,
        step.event,
        step.result,
    )
}

/// Whether nothing lies between two states of a search but reports, which may
/// note machine codes.
pub open spec fn only_reported(before: StackingView, after: StackingView) -> bool {
    after == StackingView { machine_codes: after.machine_codes, ..before }
}

/// Whether nothing lies between two states of a search but the beginning of a
/// round, which draws a seed unless the module at hand is turned down.
pub open spec fn has_begun(before: StackingView, after: StackingView) -> bool {
    after == before || after == seed_drawn(before)
}

/// Whether a step follows on the one before it, with nothing but reports in
/// between.
pub open spec fn follows(steps: Seq<SearchStep>, at: int) -> bool {
    &&& only_reported(steps[at - 1].after, steps[at].before)
    &&& steps[at].round == steps[at - 1].left
}

/// Whether a round, taken in these steps, leads from one state of a search to
/// another.
pub open spec fn is_round(start: StackingView, steps: Seq<SearchStep>, end: StackingView) -> bool {
    &&& forall|i: int| 0 <= i < steps.len() ==> is_step(#[trigger] steps[i])
    &&& forall|i: int| 0 < i < steps.len() ==> #[trigger] follows(steps, i)
    &&& if steps.len() == 0 {
        has_begun(start, end)
    } else {
        &&& has_begun(start, steps[0].before)
        &&& !steps[0].round.done
        &&& only_reported(steps.last().after, end)
    }
}

/// What stays of a search over a run of rounds, each of which leads from one
/// state to the next: the settings and the step between reports; and, where
/// variants are stacked, that the index is the one of the module at hand, which
/// grows by at most one in a round.
pub proof fn law_run_keeps_its_settings(
    states: Seq<StackingView>,
    rounds: Seq<Seq<SearchStep>>,
)
    requires
        states.len() == rounds.len() + 1,
        forall|i: int|
            0 <= i < rounds.len() ==> is_round(states[i], #[trigger] rounds[i], states[i + 1]),
        states[0].current_index == states[0].index,
    ensures
        states.last().settings == states[0].settings,
        states.last().step == states[0].step,
        !states[0].settings.chaos_mode ==> states.last().current_index == states.last().index
            && states[0].index <= states.last().index <= states[0].index + rounds.len(),
    decreases rounds.len(),
{
    if rounds.len() > 0 {
        let fewer_states = states.drop_last();
        let fewer = rounds.drop_last();
        assert forall|i: int| 0 <= i < fewer.len() implies is_round(
            fewer_states[i],
            #[trigger] fewer[i],
            fewer_states[i + 1],
        ) by {
            assert(fewer[i] == rounds[i]);
        }
        law_run_keeps_its_settings(fewer_states, fewer);
        let last = rounds.len() - 1;
        assert(is_round(states[last], rounds[last], states[last + 1]));
        lemma_round_keeps_settings(states[last], rounds[last], states[last + 1]);
    }
}

/// What a step leaves as it was, and how far it takes a search that stacks.
spec fn is_kept(step: SearchStep) -> bool {
    &&& step.after.settings == step.before.settings
    &&& step.after.step == step.before.step
    &&& !step.before.settings.chaos_mode ==> if step.left.done && !step.round.done {
        step.after.index == step.before.index + 1 && step.after.current_index == step.after.index
    } else {
        step.after.index == step.before.index && step.after.current_index
            == step.before.current_index
    }
    &&& step.round.done ==> step.left.done
}

proof fn lemma_step_keeps_settings(step: SearchStep)
    requires
        is_step(step),
    ensures
        step.after.settings == step.before.settings,
        step.after.step == step.before.step,
        !step.before.settings.chaos_mode ==> if step.left.done && !step.round.done {
            step.after.index == step.before.index + 1 && step.after.current_index
                == step.after.index
        } else {
            step.after.index == step.before.index && step.after.current_index
                == step.before.current_index
        },
        step.round.done ==> step.left.done,
{
}

/// What stays of a search over steps that leave it as it was.
proof fn lemma_kept_so_far(start: StackingView, steps: Seq<SearchStep>, at: int)
    requires
        0 <= at < steps.len(),
        forall|i: int| 0 <= i < steps.len() ==> is_kept(#[trigger] steps[i]),
        forall|i: int| 0 < i < steps.len() ==> #[trigger] follows(steps, i),
        has_begun(start, steps[0].before),
        !steps[0].round.done,
    ensures
        steps[at].after.settings == start.settings,
        steps[at].after.step == start.step,
        !start.settings.chaos_mode && start.current_index == start.index
            ==> steps[at].after.current_index == steps[at].after.index && steps[at].after.index
            == start.index + if steps[at].left.done {
            1int
        } else {
            0
        },
    decreases at,
{
    assert(is_kept(steps[at]));
    if at > 0 {
        lemma_kept_so_far(start, steps, at - 1);
        assert(follows(steps, at));
    }
}

/// What stays of a search up to a step of a round.
proof fn lemma_round_so_far(
    start: StackingView,
    steps: Seq<SearchStep>,
    end: StackingView,
    at: int,
)
    requires
        is_round(start, steps, end),
        0 <= at < steps.len(),
    ensures
        steps[at].after.settings == start.settings,
        steps[at].after.step == start.step,
        !start.settings.chaos_mode && start.current_index == start.index
            ==> steps[at].after.current_index == steps[at].after.index && steps[at].after.index
            == start.index + if steps[at].left.done {
            1int
        } else {
            0
        },
{
    assert forall|i: int| 0 <= i < steps.len() implies is_kept(#[trigger] steps[i]) by {
        lemma_step_keeps_settings(steps[i]);
    }
    lemma_kept_so_far(start, steps, at);
}

proof fn lemma_round_keeps_settings(
    start: StackingView,
    steps: Seq<SearchStep>,
    end: StackingView,
)
    requires
        is_round(start, steps, end),
    ensures
        end.settings == start.settings,
        end.step == start.step,
        !start.settings.chaos_mode && start.current_index == start.index ==> end.current_index
            == end.index && start.index <= end.index <= start.index + 1,
{
    if steps.len() > 0 {
        lemma_round_so_far(start, steps, end, steps.len() - 1);
    }
}

/// Where parents are random, the step between reports plays no part.
pub proof fn law_random_parents_ignore_the_step(
    before: StackingView,
    after: StackingView,
    round: RoundView,
    left: RoundView,
    event: RoundEvent,
    result: Result<RoundActionView, StackingError>,
    step: usize,
)
    requires
        before.settings.chaos_mode,
        round_step(before, after, round, left, event, result),
    ensures
        round_step(
            StackingView { step, ..before },
            StackingView { step, ..after },
            round,
            left,
            event,
            result,
        ),
{
    let other = StackingView { step, ..before };
    let cached = recorded(before, variant_at_hand(round, left, event));
    let other_cached = recorded(other, variant_at_hand(round, left, event));
    assert forall|draw: nat|
        drawn_entry(other_cached, draw) == #[trigger] drawn_entry(cached, draw) by {}
}

/// A step that moves past a variant does so only if the mutation failed or the
/// variant's hash was in the cache before the step. Any other variant is the
/// last one that the step looks at, and is not left alone: where variants are
/// to be compared it is handed out for that, or the search stops for want of
/// something to compare it with; otherwise it is accepted.
pub proof fn law_no_new_variant_is_passed_over(
    before: StackingView,
    after: StackingView,
    round: RoundView,
    left: RoundView,
    event: RoundEvent,
    result: Result<RoundActionView, StackingError>,
    at: int,
)
    requires
        round_step(before, after, round, left, event, result),
        left.variants == round.variants,
        !(event matches RoundEvent::Evaluated { same: true }),
        round.position <= at < left.position,
        round.variants[at] is Some,
        !before.entries.contains_key(crate::digest::blake3_of(round.variants[at]->0)),
    ensures
        at == left.position - 1,
        before.settings.check_io && before.settings.original_state is Some ==> result == Ok::<
            RoundActionView,
            StackingError,
        >(RoundActionView::Evaluate { variant: round.variants[at]->0 }) && left.awaiting && after
            == before,
        before.settings.check_io && before.settings.original_state is None ==> result == Err::<
            RoundActionView,
            StackingError,
        >(StackingError::OriginalNotExecuted) && after == before,
        !before.settings.check_io ==> accepted_variant(before, round, left, event, result)
            == round.variants[at],
        !before.settings.check_io && result is Ok ==> after.entries.contains_key(
            crate::digest::blake3_of(round.variants[at]->0),
        ),
{
}

/// A step never goes back, and ends a round without having looked at all of its
/// variants only where a variant was stacked. Whatever it went past had failed
/// or was in the cache.
pub proof fn law_round_ends_when_nothing_new_is_left(
    before: StackingView,
    after: StackingView,
    round: RoundView,
    left: RoundView,
    event: RoundEvent,
    result: Result<RoundActionView, StackingError>,
)
    requires
        round.well_formed(),
        round_step(before, after, round, left, event, result),
        left.variants == round.variants,
    ensures
        round.position <= left.position <= round.variants.len(),
        result == Ok::<RoundActionView, StackingError>(RoundActionView::Finish) && !left.done
            ==> left.position == round.variants.len() && after == before && forall|k: int|
            round.position <= k < round.variants.len() ==> ((#[trigger] round.variants[k]) is Some
                ==> before.entries.contains_key(crate::digest::blake3_of(round.variants[k]->0))),
        left.done ==> !before.settings.chaos_mode || round.done,
{
}

/// A round that stands before a new variant looks at exactly that one next.
pub proof fn law_next_new_variant_is_looked_at(
    before: StackingView,
    after: StackingView,
    round: RoundView,
    left: RoundView,
    result: Result<RoundActionView, StackingError>,
    variant: Seq<u8>,
)
    requires
        !round.awaiting,
        !round.done,
        round.position < round.variants.len(),
        round.variants[round.position as int] == Some(variant),
        !before.entries.contains_key(crate::digest::blake3_of(variant)),
        round_step(before, after, round, left, RoundEvent::Resume, result),
        left.variants == round.variants,
    ensures
        left.position == round.position + 1,
        left.last() == variant,
        match result {
            Ok(RoundActionView::Evaluate { variant: compared }) => compared == variant
                && before.settings.check_io,
            Ok(RoundActionView::Report { variant: reported, .. }) => reported == variant
                && !before.settings.check_io,
            Ok(RoundActionView::Finish) => !before.settings.check_io
                && !before.settings.chaos_mode && after.current == variant && left.done,
            Ok(RoundActionView::Unreadable) => !before.settings.check_io
                && before.settings.chaos_mode,
            Err(error) => before.settings.check_io ==> error
                == StackingError::OriginalNotExecuted && before.settings.original_state is None,
        },
{
}

/// A variant that was found not to be the same is left behind, and the search
/// goes on with the next one, just as it would have without it.
pub proof fn law_different_variant_is_left_behind(
    before: StackingView,
    after: StackingView,
    round: RoundView,
    left: RoundView,
    result: Result<RoundActionView, StackingError>,
)
    requires
        round.awaiting,
        round.well_formed(),
        round_step(
            before,
            after,
            round,
            left,
            RoundEvent::Evaluated { same: false },
            result,
        ),
        left.variants == round.variants,
    ensures
        round_step(
            before,
            after,
            RoundView { awaiting: false, ..round },
            left,
            RoundEvent::Resume,
            result,
        ),
        left.position > round.position || left.position == round.variants.len(),
{
}

/// A round that is done stays so, and changes nothing.
pub proof fn law_done_round_stays_done(
    before: StackingView,
    after: StackingView,
    round: RoundView,
    left: RoundView,
    result: Result<RoundActionView, StackingError>,
)
    requires
        round.done,
        round_step(before, after, round, left, RoundEvent::Resume, result),
    ensures
        result == Ok::<RoundActionView, StackingError>(RoundActionView::Finish),
        after == before,
        left == round,
{
}

/// What is handed out for comparison, reported or stacked without a comparison
/// is one of the variants, and is not in the cache, unless looking it up there
/// may fail.
pub proof fn law_taken_variant_is_new(
    before: StackingView,
    after: StackingView,
    round: RoundView,
    left: RoundView,
    event: RoundEvent,
    result: Result<RoundActionView, StackingError>,
)
    requires
        round.well_formed(),
        round_step(before, after, round, left, event, result),
        left.variants == round.variants,
        !(event matches RoundEvent::Evaluated { same: true }),
        !round.done,
        after != before || result is Err || !(result->Ok_0 is Finish),
    ensures
        0 < left.position <= round.variants.len(),
        round.variants[left.position - 1] == Some(left.last()),
        !before.entries.contains_key(crate::digest::blake3_of(left.last()))
            || crate::cache::lookup_outcome(
            before.entries,
            crate::digest::blake3_of(left.last()),
            None,
        ),
        result matches Ok(RoundActionView::Evaluate { variant }) ==> variant == left.last(),
        result matches Ok(RoundActionView::Report { variant, .. }) ==> variant == left.last(),
{
}

/// A round waits for a comparison exactly where it has asked for one, and every
/// answer to it is then expected; otherwise it can be taken further as it is.
pub proof fn law_round_can_be_taken_further(
    before: StackingView,
    after: StackingView,
    round: RoundView,
    left: RoundView,
    event: RoundEvent,
    result: Result<RoundActionView, StackingError>,
    same: bool,
)
    requires
        round.well_formed(),
        round.expects(event),
        round_step(before, after, round, left, event, result),
        left.variants == round.variants,
    ensures
        left.well_formed(),
        left.awaiting == (result matches Ok(RoundActionView::Evaluate { .. })),
        left.awaiting ==> left.expects(RoundEvent::Evaluated { same }),
        !left.awaiting ==> left.expects(RoundEvent::Resume),
{
}

/// A variant that is accepted goes into the cache with the index that it was
/// made at, and every other entry stays as it was. Where variants are stacked,
/// it becomes the module at hand, one index further, and is reported where that
/// index is a multiple of the step.
pub proof fn law_accepting_adds_one_entry(
    before: StackingView,
    after: StackingView,
    round: RoundView,
    left: RoundView,
    event: RoundEvent,
    result: Result<RoundActionView, StackingError>,
    variant: Seq<u8>,
    hash: Seq<u8>,
)
    requires
        round_step(before, after, round, left, event, result),
        result != Err::<RoundActionView, StackingError>(StackingError::Cache(CacheError::Write)),
        accepted_variant(before, round, left, event, result) == Some(variant),
    ensures
        hash == crate::digest::blake3_of(variant) ==> after.entries.contains_key(hash)
            && after.entries[hash] == crate::record::record(before.index as nat, variant),
        hash != crate::digest::blake3_of(variant) ==> after.entries.contains_key(hash)
            == before.entries.contains_key(hash) && after.entries[hash] == before.entries[hash],
        after.machine_codes == before.machine_codes,
        after.step == before.step,
        after.settings == before.settings,
        !before.settings.chaos_mode ==> after.generator == before.generator,
        !before.settings.chaos_mode && result is Ok ==> {
            &&& after.current == variant
            &&& after.index == before.index + 1
            &&& after.current_index == before.index + 1
            &&& (before.index + 1) % before.step as int == 0 ==> result == Ok::<
                RoundActionView,
                StackingError,
            >(
                RoundActionView::Report {
                    variant,
                    parent: round.parent,
                    count: (before.index + 1) as nat,
                },
            )
            &&& (before.index + 1) % before.step as int != 0 ==> result == Ok::<
                RoundActionView,
                StackingError,
            >(RoundActionView::Finish)
            &&& left.done
        },
        before.settings.chaos_mode && result is Ok ==> !left.done && match result->Ok_0 {
            RoundActionView::Report { variant: reported, parent, count } => reported == variant
                && parent == round.parent && count == after.entries.len(),
            RoundActionView::Unreadable => after.current == before.current && after.index
                == before.index && after.current_index == before.current_index,
            _ => false,
        },
        result is Err ==> after.current == before.current && after.index == before.index
            && after.current_index == before.current_index && !left.done,
{
}

/// A variant that was found to be the same is accepted.
pub proof fn law_same_variant_is_accepted(
    before: StackingView,
    round: RoundView,
    left: RoundView,
    result: Result<RoundActionView, StackingError>,
    variant: Seq<u8>,
)
    requires
        round.position > 0,
        round.variants[round.position - 1] == Some(variant),
    ensures
        accepted_variant(before, round, left, RoundEvent::Evaluated { same: true }, result)
            == Some(variant),
{
}

/// A search stops only for a reason: the variant could not be written, there is
/// nothing to compare it with, no index or no step is left where variants are
/// stacked, or an entry of the cache that a parent was drawn from is no record
/// or has the last index.
pub proof fn law_search_stops_only_for_a_reason(
    before: StackingView,
    after: StackingView,
    round: RoundView,
    left: RoundView,
    event: RoundEvent,
    error: StackingError,
)
    requires
        round.well_formed(),
        round.expects(event),
        before.entries.dom().finite(),
        round_step(before, after, round, left, event, Err(error)),
        left.variants == round.variants,
    ensures
        match error {
            StackingError::Cache(cause) => cause == CacheError::Write
                && crate::cache::insert_outcome(
                before.entries,
                crate::digest::blake3_of(variant_at_hand(round, left, event)),
                crate::record::record(before.index as nat, variant_at_hand(round, left, event)),
                false,
            ),
            StackingError::OriginalNotExecuted => before.settings.check_io
                && before.settings.original_state is None && !(event matches RoundEvent::Evaluated {
                same: true,
            }),
            StackingError::EmptyCache => false,
            StackingError::CorruptRecord => before.settings.chaos_mode && exists|hash: Seq<u8>|
                #[trigger] after.entries.contains_key(hash) && !crate::record::is_record(
                    after.entries[hash],
                ),
            StackingError::IndexOverflow => if before.settings.chaos_mode {
                exists|hash: Seq<u8>| #[trigger]
                    after.entries.contains_key(hash) && crate::record::is_record(
                        after.entries[hash],
                    ) && crate::record::record_index(after.entries[hash]) >= usize::MAX
            } else {
                before.index == usize::MAX
            },
            StackingError::ZeroStep => !before.settings.chaos_mode && before.step == 0,
        },
        0 < left.position <= round.variants.len(),
        round.variants[left.position - 1] == Some(variant_at_hand(round, left, event)),
{
    let variant = variant_at_hand(round, left, event);
    let cached = recorded(before, variant);
    assert(cached.entries.dom() =~= before.entries.dom().insert(crate::digest::blake3_of(variant)));
    if before.settings.chaos_mode && error != StackingError::Cache(CacheError::Write) && error
        != StackingError::OriginalNotExecuted {
        let draw = next_position(cached);
        crate::cache::law_each_position_is_taken(cached.entries, draw);
        let hash = crate::cache::key_at(cached.entries, draw);
        assert(after.entries.contains_key(hash));
    }
}

/// Where variants are stacked and can be written, a search with an index and a
/// step left does not stop, unless it has nothing to compare variants with.
pub proof fn law_stacking_goes_on(
    before: StackingView,
    after: StackingView,
    round: RoundView,
    left: RoundView,
    event: RoundEvent,
    result: Result<RoundActionView, StackingError>,
)
    requires
        !before.settings.chaos_mode,
        before.index < usize::MAX,
        before.step > 0,
        before.settings.check_io ==> before.settings.original_state is Some,
        forall|hash: Seq<u8>, bytes: Seq<u8>|
            !(#[trigger] crate::cache::insert_outcome(before.entries, hash, bytes, false)),
        round_step(before, after, round, left, event, result),
    ensures
        result is Ok,
{
}

/// How many variants of one parent are tried: ten, unless parents are random.
pub proof fn law_ten_variants_unless_parents_are_random(requested: usize, other: usize)
    ensures
        limit_of(false, requested) == 10,
        limit_of(false, requested) == limit_of(false, other),
        limit_of(true, requested) == requested,
{
}

/// A round begins with what the mutator makes of the module at hand, with the
/// semantics preserved unless that is given up, and with at most ten variants,
/// or as many as are asked for where parents are random; it has looked at none
/// of them. It does not begin only if the mutator makes nothing.
pub proof fn law_round_begins_with_the_module_at_hand(
    search: StackingView,
    seed: u64,
    result: Result<RoundView, MutationError>,
)
    requires
        begins(search, seed, result),
    ensures
        result matches Ok(round) ==> {
            let limit = if search.settings.chaos_mode {
                search.settings.variants_per_parent as nat
            } else {
                10
            };
            &&& round.parent == search.current
            &&& round.position == 0
            &&& !round.awaiting
            &&& !round.done
            &&& round.expects(RoundEvent::Resume)
            &&& round.variants.len() <= limit
            &&& crate::mutation::mutation_outcome(
                search.current,
                !search.settings.no_preserve_semantics,
                seed,
                limit,
                Some(round.variants),
            )
        },
        result matches Err(error) ==> error == MutationError::NotMutated
            && crate::mutation::mutation_outcome(
            search.current,
            !search.settings.no_preserve_semantics,
            seed,
            if search.settings.chaos_mode {
                search.settings.variants_per_parent as nat
            } else {
                10
            },
            None,
        ),
{
}

/// A machine code is news whenever it differs from the original's and was not
/// noted, and noting one makes no difference to any other, nor to anything else
/// in the search.
pub proof fn law_noting_concerns_one_machine_code(
    search: StackingView,
    hash: Seq<u8>,
    other: Seq<u8>,
    original_hash: Seq<u8>,
)
    ensures
        hash != original_hash && !search.machine_codes.contains_key(hash) ==> is_news(
            search,
            hash,
            original_hash,
        ),
        search.machine_codes.contains_key(hash) ==> !is_news(search, hash, original_hash),
        !is_news(search, original_hash, original_hash),
        noted(search, hash).machine_codes.contains_key(hash),
        hash != other ==> is_news(noted(search, hash), other, original_hash) == is_news(
            search,
            other,
            original_hash,
        ),
        noted(search, hash) == (StackingView {
            machine_codes: noted(search, hash).machine_codes,
            ..search
        }),
{
}

/// A machine code cannot be noted only where the cache of machine codes fails.
pub proof fn law_noting_fails_with_the_cache(
    search: StackingView,
    hash: Seq<u8>,
    original_hash: Seq<u8>,
    error: StackingError,
)
    requires
        noting_fails(search, hash, original_hash, error),
    ensures
        hash != original_hash,
        match error {
            StackingError::Cache(CacheError::Read) => crate::cache::lookup_outcome(
                search.machine_codes,
                hash,
                None,
            ),
            StackingError::Cache(CacheError::Write) => !search.machine_codes.contains_key(hash)
                && crate::cache::insert_outcome(
                search.machine_codes,
                hash,
                Seq::empty(),
                false,
            ),
            _ => false,
        },
{
}

/// Nothing is done with a variant exactly where the cache says that it is there;
/// what is done with any other is up to the settings alone.
pub proof fn law_only_what_was_found_is_passed_over(
    settings: Settings,
    found: Result<bool, CacheError>,
    other: Result<bool, CacheError>,
)
    ensures
        considered(settings, found) is PassOver <==> found == Ok::<bool, CacheError>(true),
        found != Ok::<bool, CacheError>(true) && other != Ok::<bool, CacheError>(true)
            ==> considered(settings, found) == considered(settings, other),
        found != Ok::<bool, CacheError>(true) ==> {
            &&& considered(settings, found) is Accept <==> !settings.check_io
            &&& considered(settings, found) is Compare <==> settings.check_io
                && settings.original_state is Some
            &&& considered(settings, found) is Refuse <==> settings.check_io
                && settings.original_state is None
        },
{
}

/// The record of a variant can be adopted, which makes the variant the module at
/// hand under the record's index, and nothing else changes.
pub proof fn law_record_is_adopted_as_it_was_made(
    search: StackingView,
    index: usize,
    variant: Seq<u8>,
)
    requires
        index < usize::MAX,
    ensures
        is_adoptable(crate::record::record(index as nat, variant)),
        ({
            let after = adopted(search, crate::record::record(index as nat, variant));
            &&& after.current == variant
            &&& after.current_index == index
            &&& after.index == index + 1
            &&& after.entries == search.entries
            &&& after.machine_codes == search.machine_codes
            &&& after.generator == search.generator
            &&& after.step == search.step
            &&& after.settings == search.settings
        }),
{
    crate::record::law_record_read_back(index, variant);
}

/// What cannot be adopted is no record, or has the last index.
pub proof fn law_what_cannot_be_adopted(bytes: Seq<u8>)
    ensures
        !is_adoptable(bytes) && adoption_error(bytes) == StackingError::CorruptRecord
            <==> !crate::record::is_record(bytes),
        !is_adoptable(bytes) && adoption_error(bytes) == StackingError::IndexOverflow
            <==> crate::record::is_record(bytes) && crate::record::record_index(bytes)
            >= usize::MAX,
{
}

/// Each entry of the cache is picked by the draw of its position.
pub proof fn law_each_entry_can_be_drawn(search: StackingView, hash: Seq<u8>)
    requires
        search.entries.dom().finite(),
        search.entries.contains_key(hash),
    ensures
        ({
            let draw = crate::cache::keys_below(search.entries, hash).len();
            &&& draw < search.entries.len()
            &&& drawn_entry(search, draw) == search.entries[hash]
        }),
{
    crate::cache::law_each_entry_has_one_position(search.entries, hash);
}

/// Among random parents, an accepted variant is reported with the number of
/// cached variants where the record that was drawn can be adopted, and nothing
/// is done where it could not be read.
pub proof fn law_drawn_record_becomes_the_parent(
    before: StackingView,
    after: StackingView,
    parent: Seq<u8>,
    variant: Seq<u8>,
    count: Result<usize, CacheError>,
    entry: Result<Option<(Vec<u8>, Vec<u8>)>, CacheError>,
    result: Result<RoundActionView, StackingError>,
    index: usize,
    drawn: Seq<u8>,
)
    requires
        settles_drawn(before, after, parent, variant, count, entry, result),
    ensures
        count is Err ==> result == Ok::<RoundActionView, StackingError>(
            RoundActionView::Unreadable,
        ) && after == before,
        count == Ok::<usize, CacheError>(0) ==> result == Err::<RoundActionView, StackingError>(
            StackingError::EmptyCache,
        ) && after == before,
        count matches Ok(n) ==> n > 0 ==> match entry {
            Ok(Some((_, value))) => {
                &&& value@ == crate::record::record(index as nat, drawn) && index < usize::MAX ==> {
                    &&& result == Ok::<RoundActionView, StackingError>(
                        RoundActionView::Report { variant, parent, count: n as nat },
                    )
                    &&& after.current == drawn
                    &&& after.current_index == index
                    &&& after.index == index + 1
                    &&& after.entries == before.entries
                }
                &&& !crate::record::is_record(value@) ==> result == Err::<
                    RoundActionView,
                    StackingError,
                >(StackingError::CorruptRecord) && after == before
            },
            _ => result == Ok::<RoundActionView, StackingError>(RoundActionView::Unreadable)
                && after == before,
        },
{
    crate::record::law_record_read_back(index, drawn);
}

/// A cache cannot be drawn from only where an entry may be unreadable, or where
/// there are too many entries to count.
pub proof fn law_readable_cache_can_be_drawn_from(search: StackingView)
    requires
        !crate::cache::first_outcome(search.entries, None),
        forall|key: Seq<u8>| #[trigger]
            search.entries.contains_key(key) ==> !crate::cache::next_outcome(
                search.entries,
                key,
                None,
            ),
        search.entries.len() <= usize::MAX,
    ensures
        !cannot_be_drawn_from(search),
{
}

/// What a step came to is seen as it is.
pub proof fn law_actions_are_seen_as_they_are(action: RoundAction, error: StackingError)
    ensures
        action_result_view(Ok(action)) == Ok::<RoundActionView, StackingError>(action@),
        action_result_view(Err(error)) == Err::<RoundActionView, StackingError>(error),
        match action {
            RoundAction::Evaluate { variant } => action@ == (RoundActionView::Evaluate {
                variant: variant@,
            }),
            RoundAction::Report { variant, parent, count } => action@ == (RoundActionView::Report {
                variant: variant@,
                parent: parent@,
                count: count as nat,
            }),
            RoundAction::Unreadable => action@ is Unreadable,
            RoundAction::Finish => action@ is Finish,
        },
{
}

/// A search among random parents never has enough. One that stacks has enough
/// from when as many variants are stacked as were asked for, and a step from
/// before that leads to exactly as many at most.
pub proof fn law_search_finishes_with_enough(
    before: StackingView,
    after: StackingView,
    round: RoundView,
    left: RoundView,
    event: RoundEvent,
    result: Result<RoundActionView, StackingError>,
)
    requires
        !is_finished(before),
        round_step(before, after, round, left, event, result),
    ensures
        before.settings.chaos_mode || before.index < before.settings.count,
        before.settings.chaos_mode ==> !is_finished(after),
        is_finished(after) ==> after.index == after.settings.count,
        !before.settings.chaos_mode && after.index == before.settings.count ==> is_finished(after),
{
}

/// Where variants are stacked, one is accepted only with an index and a step
/// left; without them the search stops there.
pub proof fn law_stacking_needs_an_index_and_a_step(
    before: StackingView,
    after: StackingView,
    round: RoundView,
    left: RoundView,
    event: RoundEvent,
    result: Result<RoundActionView, StackingError>,
)
    requires
        !before.settings.chaos_mode,
        round_step(before, after, round, left, event, result),
        accepted_variant(before, round, left, event, result) is Some,
        result != Err::<RoundActionView, StackingError>(StackingError::Cache(CacheError::Write)),
    ensures
        before.index == usize::MAX ==> result == Err::<RoundActionView, StackingError>(
            StackingError::IndexOverflow,
        ),
        before.index < usize::MAX && before.step == 0 ==> result == Err::<
            RoundActionView,
            StackingError,
        >(StackingError::ZeroStep),
        before.index < usize::MAX && before.step > 0 ==> result is Ok,
{
}

/// Among random parents, the generator moves on by one position with every
/// report, and whenever the entry that was drawn cannot be adopted.
pub proof fn law_each_draw_moves_the_generator_on(
    before: StackingView,
    after: StackingView,
    round: RoundView,
    left: RoundView,
    event: RoundEvent,
    result: Result<RoundActionView, StackingError>,
)
    requires
        before.settings.chaos_mode,
        round_step(before, after, round, left, event, result),
        (result matches Ok(RoundActionView::Report { .. })) || result == Err::<
            RoundActionView,
            StackingError,
        >(StackingError::CorruptRecord) || result == Err::<RoundActionView, StackingError>(
            StackingError::IndexOverflow,
        ),
    ensures
        after.generator == crate::chance::after_below(
            before.generator,
            after.entries.len() as usize,
        ),
        crate::chance::next_below(before.generator, after.entries.len() as usize)
            < after.entries.len(),
{
}

} // verus!
