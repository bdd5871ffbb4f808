//! What is done with a reported variant: it is saved, compiled where its
//! machine code matters, and shown to the oracle, which may end the search.

use vstd::prelude::*;
use vstd::string::StringExecFns;

use crate::command::{oracle_command, oracle_stops};
use crate::digest::{content_hash, content_hash_text};
use crate::execution::ExecutionResult;
use crate::stacking::{is_new_code, Stacking, StackingError};
use crate::stat::{Stat, StatRecord};
use crate::text::decimal_text;

verus! {

#[verifier::external_type_specification]
#[verifier::external_body]
pub struct ExCompileError(wasmtime::Error);

/// Whether compiling `wasm` may have this outcome: machine code, or nothing if
/// it fails. Which one it has is up to the machine that compiles.
pub uninterp spec fn compile_outcome(wasm: Seq<u8>, code: Option<Seq<u8>>) -> bool;

/// The bytes of the machine code that compiling came to, or nothing if it
/// failed.
pub open spec fn code_view(code: Result<Vec<u8>, wasmtime::Error>) -> Option<Seq<u8>> {
    match code {
        Ok(code) => Some(code@),
        Err(_) => None,
    }
}

/// Calls `wasmtime::Module::new` under the default configuration with the
/// Cranelift compiler, then `wasmtime::Module::serialize`.
#[verifier::external_body]
fn compile_module(wasm: &[u8]) -> (code: Result<Vec<u8>, wasmtime::Error>)
    ensures
        compile_outcome(wasm@, code_view(code)),
{
    let mut config = wasmtime::Config::default();
    config.strategy(wasmtime::Strategy::Cranelift);
    let engine = wasmtime::Engine::new(&config)?;
    wasmtime::Module::new(&engine, wasm)?.serialize()
}

/// What stops a report.
#[derive(Clone, Copy, Debug, PartialEq, Eq, Structural)]
pub enum ReportError {
    /// The variant could not be compiled.
    NotCompiled,
    /// The machine code could not be looked up or noted.
    Search(StackingError),
}

/// The machine code of a module.
pub fn compile(wasm: &Vec<u8>) -> (code: Result<Vec<u8>, ReportError>)
    ensures
        match code {
            Ok(code) => compile_outcome(wasm@, Some(code@)),
            Err(error) => error == ReportError::NotCompiled && compile_outcome(wasm@, None),
        },
{
    match compile_module(wasm.as_slice()) {
        Ok(code) => Ok(code),
        Err(_) => Err(ReportError::NotCompiled),
    }
}

/// The bytes whose hash stands for the original's machine code when the
/// original was not executed: the word `empty`.
pub open spec fn empty_word() -> Seq<u8> {
    seq![101u8, 109u8, 112u8, 116u8, 121u8]
}

/// The hash that stands for the original's machine code.
pub open spec fn reference_hash(
    original_state: Option<crate::execution::ExecutionView>,
) -> Seq<u8> {
    match original_state {
        Some(execution) => crate::digest::blake3_of(execution.machine_code),
        None => crate::digest::blake3_of(empty_word()),
    }
}

/// The hash that stands for the original's machine code.
pub fn original_hash(original_state: &Option<ExecutionResult>) -> (hash: Vec<u8>)
    ensures
        hash@ == reference_hash(crate::execution::execution_view(*original_state)),
{
    match original_state {
        Some(execution) => content_hash(&execution.machine_code),
        None => {
            let word: Vec<u8> = vec![101u8, 109u8, 112u8, 116u8, 121u8];
            assert(word@ =~= empty_word());
            content_hash(&word)
        },
    }
}

/// The name of a reported variant's files, without the ending. Where variants
/// are stacked it holds the index at which the round began; among random
/// parents, the hashes of the parent and of the variant.
pub open spec fn base_name(
    chaos_mode: bool,
    output: Seq<char>,
    parent: Seq<u8>,
    variant: Seq<u8>,
    index: nat,
) -> Seq<char> {
    if chaos_mode {
        output + "."@ + crate::digest::hex(crate::digest::blake3_of(parent)) + "."@
            + crate::digest::hex(crate::digest::blake3_of(variant)) + ".chaos"@
    } else {
        output + "."@ + crate::text::decimal(index)
    }
}

fn file_base(
    chaos_mode: bool,
    output: &String,
    parent: &Vec<u8>,
    variant: &Vec<u8>,
    index: usize,
) -> (base: String)
    ensures
        base@ == base_name(chaos_mode, output@, parent@, variant@, index as nat),
{
    let mut base: String = output.clone();
    base.append(".");
    if chaos_mode {
        base.append(content_hash_text(parent).as_str());
        base.append(".");
        base.append(content_hash_text(variant).as_str());
        base.append(".chaos");
    } else {
        base.append(decimal_text(index).as_str());
    }
    base
}

fn with_ending(base: &String, ending: &str) -> (name: String)
    ensures
        name@ == base@ + ending@,
{
    let mut name: String = base.clone();
    name.append(ending);
    name
}

/// How reports are made, and what they came to so far.
pub struct Reporter {
    /// What the names of all files begin with.
    pub output: String,
    /// Whether only variants whose machine code is news are shown to the
    /// oracle.
    pub report_only_if_diff_mc: bool,
    /// The hash that stands for the original's machine code.
    pub original_hash: Vec<u8>,
    pub stat: Stat,
}

/// The contents of a [`Reporter`].
pub struct ReporterView {
    pub output: Seq<char>,
    pub report_only_if_diff_mc: bool,
    pub original_hash: Seq<u8>,
    pub stat: crate::stat::StatView,
}

impl View for Reporter {
    type V = ReporterView;

    open spec fn view(&self) -> ReporterView {
        ReporterView {
            output: self.output@,
            report_only_if_diff_mc: self.report_only_if_diff_mc,
            original_hash: self.original_hash@,
            stat: self.stat@,
        }
    }
}

/// The bytes of a vector, where there is one.
pub open spec fn optional_bytes(bytes: Option<Vec<u8>>) -> Option<Seq<u8>> {
    match bytes {
        Some(bytes) => Some(bytes@),
        None => None,
    }
}

/// How far a report has come.
#[derive(Debug)]
pub enum Report {
    /// Nothing has been done yet.
    Initial { variant: Vec<u8>, parent: Vec<u8>, index: usize, count: usize },
    /// The variant is being saved. Where it was compiled beforehand, its
    /// machine code is kept; `news` says whether that is news.
    Saving { variant: Vec<u8>, code: Option<Vec<u8>>, base: String, count: usize, news: bool },
    /// The machine code is being saved.
    SavingCode { base: String, count: usize, news: bool },
    /// The oracle is running.
    Asking { count: usize },
    /// The statistics are being saved.
    Stopping,
    /// The report is over.
    Over,
}

/// The contents of a [`Report`].
#[verifier::ext_equal]
pub enum ReportView {
    Initial { variant: Seq<u8>, parent: Seq<u8>, index: usize, count: usize },
    Saving {
        variant: Seq<u8>,
        code: Option<Seq<u8>>,
        base: Seq<char>,
        count: usize,
        news: bool,
    },
    SavingCode { base: Seq<char>, count: usize, news: bool },
    Asking { count: usize },
    Stopping,
    Over,
}

impl View for Report {
    type V = ReportView;

    open spec fn view(&self) -> ReportView {
        match *self {
            Report::Initial { variant, parent, index, count } => ReportView::Initial {
                variant: variant@,
                parent: parent@,
                index,
                count,
            },
            Report::Saving { variant, code, base, count, news } => ReportView::Saving {
                variant: variant@,
                code: optional_bytes(code),
                base: base@,
                count,
                news,
            },
            Report::SavingCode { base, count, news } => ReportView::SavingCode {
                base: base@,
                count,
                news,
            },
            Report::Asking { count } => ReportView::Asking { count },
            Report::Stopping => ReportView::Stopping,
            Report::Over => ReportView::Over,
        }
    }
}

/// What came of the last thing to do.
#[derive(Clone, Copy, Debug)]
pub enum ReportEvent {
    Done,
    /// The oracle ended with this exit code.
    OracleExited { code: i32 },
}

/// What to do next.
#[derive(Debug)]
pub enum ReportAction {
    /// Write a file.
    Write { name: String, contents: Vec<u8> },
    /// Run the oracle: the program and its arguments.
    CallOracle { command: Vec<String> },
    /// Write the statistics to a file.
    SaveStat { name: String, record: StatRecord },
    /// Go on with the search.
    Continue,
    /// End the search.
    Stop,
}

/// The contents of a [`ReportAction`].
#[verifier::ext_equal]
pub enum ReportActionView {
    Write { name: Seq<char>, contents: Seq<u8> },
    CallOracle { command: Seq<Seq<char>> },
    SaveStat { name: Seq<char>, record: StatRecord },
    Continue,
    Stop,
}

impl View for ReportAction {
    type V = ReportActionView;

    open spec fn view(&self) -> ReportActionView {
        match *self {
            ReportAction::Write { name, contents } => ReportActionView::Write {
                name: name@,
                contents: contents@,
            },
            ReportAction::CallOracle { command } => ReportActionView::CallOracle {
                command: crate::text::texts(command@),
            },
            ReportAction::SaveStat { name, record } => ReportActionView::SaveStat {
                name: name@,
                record,
            },
            ReportAction::Continue => ReportActionView::Continue,
            ReportAction::Stop => ReportActionView::Stop,
        }
    }
}

/// Whether `event` answers what was to be done.
pub open spec fn report_expects(state: ReportView, event: ReportEvent) -> bool {
    match state {
        ReportView::Asking { .. } => event is OracleExited,
        ReportView::Over => false,
        _ => event is Done,
    }
}

/// The statistics with one more generated binary.
pub open spec fn binary_counted(stat: crate::stat::StatView) -> crate::stat::StatView {
    crate::stat::StatView {
        record: StatRecord {
            generated_binaries: (stat.record.generated_binaries + 1) as usize,
            ..stat.record
        },
        ..stat
    }
}

/// The statistics with one more unique machine code.
pub open spec fn machine_code_counted(stat: crate::stat::StatView) -> crate::stat::StatView {
    crate::stat::StatView {
        record: StatRecord {
            unique_machine_codes: (stat.record.unique_machine_codes + 1) as usize,
            ..stat.record
        },
        ..stat
    }
}

/// The statistics with the timer running, or not.
pub open spec fn timer_set(stat: crate::stat::StatView, running: bool) -> crate::stat::StatView {
    crate::stat::StatView { running, ..stat }
}

/// What follows once everything is saved: the oracle is asked about the
/// variant, if there is one and the machine code is news or need not be, with
/// the timer stopped; otherwise the search goes on.
pub open spec fn asks_oracle(
    search: crate::stacking::StackingView,
    reporter: ReporterView,
    stat: crate::stat::StatView,
    base: Seq<char>,
    count: usize,
    news: bool,
) -> (crate::stat::StatView, ReportView, ReportActionView) {
    match search.settings.oracle {
        Some(oracle) if news || !reporter.report_only_if_diff_mc => (
            timer_set(stat, false),
            ReportView::Asking { count },
            ReportActionView::CallOracle {
                command: crate::text::pieces(oracle, ' ').push(base + ".wasm"@),
            },
        ),
        _ => (stat, ReportView::Over, ReportActionView::Continue),
    }
}

/// Where only differing machine code matters, what follows once it is known how
/// the machine code of a variant differs. A variant with the original's machine
/// code is not reported at all. Any other is saved, and news is counted.
pub open spec fn reports_differing(
    reporter: ReporterView,
    variant: Seq<u8>,
    code: Seq<u8>,
    base: Seq<char>,
    count: usize,
    differs: bool,
    news: bool,
) -> (crate::stat::StatView, ReportView, ReportActionView) {
    if !differs {
        (timer_set(reporter.stat, true), ReportView::Over, ReportActionView::Continue)
    } else {
        (
            timer_set(
                if news {
                    machine_code_counted(reporter.stat)
                } else {
                    reporter.stat
                },
                true,
            ),
            ReportView::Saving { variant, code: Some(code), base, count, news },
            ReportActionView::Write { name: base + ".wasm"@, contents: variant },
        )
    }
}

/// Where only differing machine code matters, what follows once the machine
/// code of a variant is at hand: news is noted.
pub open spec fn weighs_code(
    before: crate::stacking::StackingView,
    after: crate::stacking::StackingView,
    reporter: ReporterView,
    variant: Seq<u8>,
    code: Seq<u8>,
    base: Seq<char>,
    count: usize,
    result: (crate::stat::StatView, ReportView, ReportActionView),
) -> bool {
    let hash = crate::digest::blake3_of(code);
    let news = crate::stacking::is_news(before, hash, reporter.original_hash);
    &&& after == if news {
        crate::stacking::noted(before, hash)
    } else {
        before
    }
    &&& result == reports_differing(
        reporter,
        variant,
        code,
        base,
        count,
        hash != reporter.original_hash,
        news,
    )
}

/// Where only differing machine code matters, what follows once a variant is
/// compiled.
pub open spec fn weighs_compiled(
    before: crate::stacking::StackingView,
    after: crate::stacking::StackingView,
    reporter: ReporterView,
    variant: Seq<u8>,
    base: Seq<char>,
    count: usize,
    result: (crate::stat::StatView, ReportView, ReportActionView),
) -> bool {
    exists|code: Seq<u8>| #[trigger]
        compile_outcome(variant, Some(code)) && weighs_code(
            before,
            after,
            reporter,
            variant,
            code,
            base,
            count,
            result,
        )
}

/// One step of a report.
///
/// Where only differing machine code matters, the variant is compiled first,
/// with the timer stopped, and goes no further if it has the original's machine
/// code. Then the variant is saved, and counted, and so is its machine code
/// where that is asked for, again with the timer stopped. Then the oracle is
/// asked. If it ends the search among random parents and machine code is saved,
/// the statistics are saved as well, with `count` as the number of binaries.
pub open spec fn report_step(
    before: crate::stacking::StackingView,
    after: crate::stacking::StackingView,
    reporter: ReporterView,
    stat: crate::stat::StatView,
    state: ReportView,
    event: ReportEvent,
    next: ReportView,
    action: ReportActionView,
) -> bool {
    match (state, event) {
        (ReportView::Initial { variant, parent, index, count }, _) => {
            let base = base_name(
                before.settings.chaos_mode,
                reporter.output,
                parent,
                variant,
                index as nat,
            );
            if reporter.report_only_if_diff_mc {
                weighs_compiled(
                    before,
                    after,
                    reporter,
                    variant,
                    base,
                    count,
                    (stat, next, action),
                )
            } else {
                &&& after == before
                &&& stat == reporter.stat
                &&& next == ReportView::Saving { variant, code: None, base, count, news: false }
                &&& action == ReportActionView::Write { name: base + ".wasm"@, contents: variant }
            }
        },
        (ReportView::Saving { variant, code, base, count, news }, _) => {
            let counted = binary_counted(reporter.stat);
            &&& after == before
            &&& if before.settings.save_compiling {
                &&& stat == timer_set(counted, false)
                &&& next == ReportView::SavingCode { base, count, news }
                &&& action is Write
                &&& action->Write_name == base + ".cwasm"@
                &&& match code {
                    Some(code) => action->Write_contents == code,
                    None => compile_outcome(variant, Some(action->Write_contents)),
                }
            } else {
                (stat, next, action) == asks_oracle(before, reporter, counted, base, count, news)
            }
        },
        (ReportView::SavingCode { base, count, news }, _) => {
            &&& after == before
            &&& (stat, next, action) == asks_oracle(
                before,
                reporter,
                timer_set(reporter.stat, true),
                base,
                count,
                news,
            )
        },
        (ReportView::Asking { count }, ReportEvent::OracleExited { code }) => {
            &&& after == before
            &&& if code != 1 {
                &&& stat == timer_set(reporter.stat, true)
                &&& next is Over
                &&& action is Continue
            } else if before.settings.chaos_mode && before.settings.save_compiling {
                &&& action is SaveStat
                &&& action->SaveStat_name == reporter.output + ".chaos.json"@
                &&& action->SaveStat_record == StatRecord {
                    generated_binaries: count,
                    elapsed_nanos: action->SaveStat_record.elapsed_nanos,
                    ..reporter.stat.record
                }
                &&& stat == crate::stat::StatView {
                    record: action->SaveStat_record,
                    running: false,
                }
                &&& next is Stopping
            } else {
                &&& stat == timer_set(reporter.stat, false)
                &&& next is Over
                &&& action is Stop
            }
        },
        (ReportView::Stopping, _) => {
            &&& after == before
            &&& stat == reporter.stat
            &&& next is Over
            &&& action is Stop
        },
        _ => false,
    }
}

/// Whether the machine code could not be looked up or noted.
pub open spec fn weighing_fails(
    search: crate::stacking::StackingView,
    reporter: ReporterView,
    code: Seq<u8>,
    error: ReportError,
) -> bool {
    &&& error matches ReportError::Search(error)
    &&& crate::stacking::noting_fails(
        search,
        crate::digest::blake3_of(code),
        reporter.original_hash,
        error,
    )
}

/// Whether the machine code that a variant was compiled to could not be looked
/// up or noted.
pub open spec fn weighing_compiled_fails(
    search: crate::stacking::StackingView,
    reporter: ReporterView,
    variant: Seq<u8>,
    error: ReportError,
) -> bool {
    exists|code: Seq<u8>| #[trigger]
        compile_outcome(variant, Some(code)) && weighing_fails(search, reporter, code, error)
}

/// When a step of a report fails: the variant does not compile, or its machine
/// code cannot be looked up or noted.
pub open spec fn report_fails(
    search: crate::stacking::StackingView,
    reporter: ReporterView,
    stat: crate::stat::StatView,
    state: ReportView,
    error: ReportError,
) -> bool {
    match state {
        ReportView::Initial { variant, .. } => {
            &&& reporter.report_only_if_diff_mc
            &&& stat == timer_set(reporter.stat, false)
            &&& {
                ||| error == ReportError::NotCompiled && compile_outcome(variant, None)
                ||| weighing_compiled_fails(search, reporter, variant, error)
            }
        },
        ReportView::Saving { variant, code, .. } => {
            &&& search.settings.save_compiling
            &&& code is None
            &&& stat == timer_set(binary_counted(reporter.stat), false)
            &&& error == ReportError::NotCompiled
            &&& compile_outcome(variant, None)
        },
        _ => false,
    }
}

/// Asks the oracle about a saved variant, where it is to be asked.
pub fn ask_oracle(search: &Stacking, reporter: &mut Reporter, base: &String, count: usize, news: bool)
    -> (next: (Report, ReportAction))
    ensures
        (final(reporter)@.stat, next.0@, next.1@) == asks_oracle(
            search@,
            old(reporter)@,
            old(reporter)@.stat,
            base@,
            count,
            news,
        ),
        final(reporter)@ == (ReporterView { stat: final(reporter)@.stat, ..old(reporter)@ }),
        final(reporter).stat.time().start == old(reporter).stat.time().start,
{
    match search.oracle() {
        Some(oracle) => {
            if news || !reporter.report_only_if_diff_mc {
                reporter.stat.pause();
                let name: String = with_ending(base, ".wasm");
                let command: Vec<String> = oracle_command(oracle.as_str(), name.as_str());
                return (Report::Asking { count }, ReportAction::CallOracle { command });
            }
        },
        None => {},
    }
    (Report::Over, ReportAction::Continue)
}

/// Where only differing machine code matters, goes on once it is known how the
/// machine code of a variant differs.
pub fn report_differing(
    reporter: &mut Reporter,
    variant: Vec<u8>,
    code: Vec<u8>,
    base: String,
    count: usize,
    differs: bool,
    news: bool,
) -> (next: (Report, ReportAction))
    requires
        old(reporter)@.stat.record.unique_machine_codes < usize::MAX,
    ensures
        (final(reporter)@.stat, next.0@, next.1@) == reports_differing(
            old(reporter)@,
            variant@,
            code@,
            base@,
            count,
            differs,
            news,
        ),
        final(reporter)@ == (ReporterView { stat: final(reporter)@.stat, ..old(reporter)@ }),
        final(reporter).stat.time().start == old(reporter).stat.time().start,
{
    if !differs {
        reporter.stat.unpause();
        return (Report::Over, ReportAction::Continue);
    }
    if news {
        reporter.stat.count_machine_code();
    }
    reporter.stat.unpause();
    save_variant(variant, Some(code), base, count, news)
}

/// Where only differing machine code matters, weighs that of a variant.
pub fn weigh_code(
    search: &mut Stacking,
    reporter: &mut Reporter,
    variant: Vec<u8>,
    code: Vec<u8>,
    base: String,
    count: usize,
) -> (next: Result<(Report, ReportAction), ReportError>)
    requires
        old(reporter)@.stat.record.unique_machine_codes < usize::MAX,
    ensures
        match next {
            Ok(next) => weighs_code(
                old(search)@,
                final(search)@,
                old(reporter)@,
                variant@,
                code@,
                base@,
                count,
                (final(reporter)@.stat, next.0@, next.1@),
            ),
            Err(error) => weighing_fails(old(search)@, old(reporter)@, code@, error)
                && final(reporter)@ == old(reporter)@,
        },
        final(search)@ == (crate::stacking::StackingView {
            machine_codes: final(search)@.machine_codes,
            ..old(search)@
        }),
        final(reporter)@ == (ReporterView { stat: final(reporter)@.stat, ..old(reporter)@ }),
        final(reporter).stat.time().start == old(reporter).stat.time().start,
{
    let hash: Vec<u8> = content_hash(&code);
    let differs: bool = is_new_code(&hash, &reporter.original_hash, false);
    match search.note_machine_code(&hash, &reporter.original_hash) {
        Ok(news) => Ok(report_differing(reporter, variant, code, base, count, differs, news)),
        Err(error) => Err(ReportError::Search(error)),
    }
}

/// Saves a variant.
pub fn save_variant(
    variant: Vec<u8>,
    code: Option<Vec<u8>>,
    base: String,
    count: usize,
    news: bool,
) -> (next: (Report, ReportAction))
    ensures
        next.0@ == (ReportView::Saving {
            variant: variant@,
            code: optional_bytes(code),
            base: base@,
            count,
            news,
        }),
        next.1@ == (ReportActionView::Write { name: base@ + ".wasm"@, contents: variant@ }),
{
    let name: String = with_ending(&base, ".wasm");
    let contents: Vec<u8> = vstd::slice::slice_to_vec(variant.as_slice());
    (Report::Saving { variant, code, base, count, news }, ReportAction::Write { name, contents })
}

/// Saves the machine code of a variant.
pub fn save_code(code: Vec<u8>, base: String, count: usize, news: bool) -> (next: (
    Report,
    ReportAction,
))
    ensures
        next.0@ == (ReportView::SavingCode { base: base@, count, news }),
        next.1@ == (ReportActionView::Write { name: base@ + ".cwasm"@, contents: code@ }),
{
    let name: String = with_ending(&base, ".cwasm");
    (Report::SavingCode { base, count, news }, ReportAction::Write { name, contents: code })
}

/// Takes a report one step further.
pub fn report(search: &mut Stacking, reporter: &mut Reporter, state: Report, event: ReportEvent)
    -> (next: Result<(Report, ReportAction), ReportError>)
    requires
        report_expects(state@, event),
        old(reporter)@.stat.record.generated_binaries < usize::MAX,
        old(reporter)@.stat.record.unique_machine_codes < usize::MAX,
    ensures
        next matches Ok((_, ReportAction::SaveStat { record, .. })) ==> record.elapsed_nanos
            == final(reporter).stat.time().nanos() && (!old(reporter)@.stat.running
            ==> record.elapsed_nanos == old(reporter).stat.time().nanos()),
        match next {
            Ok(next) => report_step(
                old(search)@,
                final(search)@,
                old(reporter)@,
                final(reporter)@.stat,
                state@,
                event,
                next.0@,
                next.1@,
            ),
            Err(error) => report_fails(
                old(search)@,
                old(reporter)@,
                final(reporter)@.stat,
                state@,
                error,
            ),
        },
        final(search)@ == (crate::stacking::StackingView {
            machine_codes: final(search)@.machine_codes,
            ..old(search)@
        }),
        final(reporter)@ == (ReporterView { stat: final(reporter)@.stat, ..old(reporter)@ }),
        final(reporter).stat.time().start == old(reporter).stat.time().start,
{
    match (state, event) {
        (Report::Initial { variant, parent, index, count }, _) => {
            let base: String = file_base(
                search.chaos_mode(),
                &reporter.output,
                &parent,
                &variant,
                index,
            );
            if !reporter.report_only_if_diff_mc {
                return Ok(save_variant(variant, None, base, count, false));
            }
            reporter.stat.pause();
            let code: Vec<u8> = match compile(&variant) {
                Ok(code) => code,
                Err(error) => return Err(error),
            };
            let next = weigh_code(search, reporter, variant, code, base, count);
            assert(next matches Ok(next) ==> weighs_compiled(
                old(search)@,
                search@,
                old(reporter)@,
                variant@,
                base@,
                count,
                (reporter@.stat, next.0@, next.1@),
            ));
            assert(next matches Err(error) ==> weighing_compiled_fails(
                old(search)@,
                old(reporter)@,
                variant@,
                error,
            ));
            next
        },
        (Report::Saving { variant, code, base, count, news }, _) => {
            reporter.stat.count_binary();
            if !search.save_compiling() {
                return Ok(ask_oracle(search, reporter, &base, count, news));
            }
            reporter.stat.pause();
            let code: Vec<u8> = match code {
                Some(code) => code,
                None => match compile(&variant) {
                    Ok(code) => code,
                    Err(error) => return Err(error),
                },
            };
            Ok(save_code(code, base, count, news))
        },
        (Report::SavingCode { base, count, news }, _) => {
            reporter.stat.unpause();
            Ok(ask_oracle(search, reporter, &base, count, news))
        },
        (Report::Asking { count }, ReportEvent::OracleExited { code }) => {
            if !oracle_stops(code) {
                reporter.stat.unpause();
                return Ok((Report::Over, ReportAction::Continue));
            }
            proof {
                reporter.stat.lemma_running();
            }
            reporter.stat.pause();
            if search.chaos_mode() && search.save_compiling() {
                reporter.stat.set_generated_binaries(count);
                let record: StatRecord = reporter.stat.serialize();
                let name: String = with_ending(&reporter.output, ".chaos.json");
                return Ok((Report::Stopping, ReportAction::SaveStat { name, record }));
            }
            Ok((Report::Over, ReportAction::Stop))
        },
        _ => Ok((Report::Over, ReportAction::Stop)),
    }
}

proof fn lemma_same_tail(head: Seq<char>, a: Seq<char>, b: Seq<char>)
    requires
        head + a == head + b,
    ensures
        a == b,
{
    assert((head + a).skip(head.len() as int) =~= a);
    assert((head + b).skip(head.len() as int) =~= b);
}

/// Where variants are stacked, reports under different indices go to different
/// files.
pub proof fn law_stacked_names_differ(
    output: Seq<char>,
    parent_a: Seq<u8>,
    parent_b: Seq<u8>,
    variant_a: Seq<u8>,
    variant_b: Seq<u8>,
    index_a: nat,
    index_b: nat,
)
    requires
        base_name(false, output, parent_a, variant_a, index_a) == base_name(
            false,
            output,
            parent_b,
            variant_b,
            index_b,
        ),
    ensures
        index_a == index_b,
{
    lemma_same_tail(
        output + "."@,
        crate::text::decimal(index_a),
        crate::text::decimal(index_b),
    );
    crate::text::law_decimal_injective(index_a, index_b);
}

proof fn lemma_no_dot_in_hex(bytes: Seq<u8>, i: int)
    requires
        0 <= i < crate::digest::hex(bytes).len(),
    ensures
        crate::digest::hex(bytes)[i] != '.',
{
}

/// Among random parents, reports go to different files unless the parents and
/// the variants have the same hashes.
pub proof fn law_spread_names_differ(
    output: Seq<char>,
    parent_a: Seq<u8>,
    parent_b: Seq<u8>,
    variant_a: Seq<u8>,
    variant_b: Seq<u8>,
    index_a: nat,
    index_b: nat,
)
    requires
        base_name(true, output, parent_a, variant_a, index_a) == base_name(
            true,
            output,
            parent_b,
            variant_b,
            index_b,
        ),
    ensures
        crate::digest::blake3_of(parent_a) == crate::digest::blake3_of(parent_b),
        crate::digest::blake3_of(variant_a) == crate::digest::blake3_of(variant_b),
{
    reveal_strlit(".");
    reveal_strlit(".chaos");
    let pa = crate::digest::hex(crate::digest::blake3_of(parent_a));
    let pb = crate::digest::hex(crate::digest::blake3_of(parent_b));
    let va = crate::digest::hex(crate::digest::blake3_of(variant_a));
    let vb = crate::digest::hex(crate::digest::blake3_of(variant_b));
    let head = output + "."@;
    let tail_a = pa + "."@ + va + ".chaos"@;
    let tail_b = pb + "."@ + vb + ".chaos"@;
    assert(head + tail_a =~= base_name(true, output, parent_a, variant_a, index_a));
    assert(head + tail_b =~= base_name(true, output, parent_b, variant_b, index_b));
    lemma_same_tail(head, tail_a, tail_b);
    assert(tail_a[pa.len() as int] == '.');
    assert(tail_b[pb.len() as int] == '.');
    if pa.len() < pb.len() {
        lemma_no_dot_in_hex(crate::digest::blake3_of(parent_b), pa.len() as int);
        assert(tail_b[pa.len() as int] == pb[pa.len() as int]);
    }
    if pb.len() < pa.len() {
        lemma_no_dot_in_hex(crate::digest::blake3_of(parent_a), pb.len() as int);
        assert(tail_a[pb.len() as int] == pa[pb.len() as int]);
    }
    assert(tail_a.take(pa.len() as int) =~= pa);
    assert(tail_b.take(pb.len() as int) =~= pb);
    crate::digest::law_hex_injective(
        crate::digest::blake3_of(parent_a),
        crate::digest::blake3_of(parent_b),
    );
    assert(tail_a.len() == pa.len() + 1 + va.len() + 6);
    assert(tail_b.len() == pb.len() + 1 + vb.len() + 6);
    assert(tail_a.skip(pa.len() + 1int).take(va.len() as int) =~= va);
    assert(tail_b.skip(pb.len() + 1int).take(vb.len() as int) =~= vb);
    crate::digest::law_hex_injective(
        crate::digest::blake3_of(variant_a),
        crate::digest::blake3_of(variant_b),
    );
}

/// Where only differing machine code matters, a variant is saved only if it
/// compiles to machine code other than the original's. One with the original's
/// machine code is passed over: nothing is saved, counted or asked.
pub proof fn law_only_what_differs_is_reported(
    before: crate::stacking::StackingView,
    after: crate::stacking::StackingView,
    reporter: ReporterView,
    stat: crate::stat::StatView,
    state: ReportView,
    event: ReportEvent,
    next: ReportView,
    action: ReportActionView,
)
    requires
        reporter.report_only_if_diff_mc,
        state is Initial,
        report_step(before, after, reporter, stat, state, event, next, action),
    ensures
        exists|code: Seq<u8>| #[trigger]
            compile_outcome(state->Initial_variant, Some(code)) && if crate::digest::blake3_of(code)
                == reporter.original_hash {
                &&& action is Continue
                &&& after == before
                &&& stat.record == reporter.stat.record
            } else {
                &&& action is Write
                &&& action->Write_contents == state->Initial_variant
                &&& next is Saving
                &&& next->Saving_code == Some(code)
            },
{
    let base = base_name(
        before.settings.chaos_mode,
        reporter.output,
        state->Initial_parent,
        state->Initial_variant,
        state->Initial_index as nat,
    );
    let code = choose|code: Seq<u8>| #[trigger]
        compile_outcome(state->Initial_variant, Some(code)) && weighs_code(
            before,
            after,
            reporter,
            state->Initial_variant,
            code,
            base,
            state->Initial_count,
            (stat, next, action),
        );
    assert(compile_outcome(state->Initial_variant, Some(code)));
}

/// Where only differing machine code matters, a variant is held for news only if
/// its machine code is, and that machine code is then noted and counted; nothing
/// is noted otherwise.
pub proof fn law_news_is_noted(
    before: crate::stacking::StackingView,
    after: crate::stacking::StackingView,
    reporter: ReporterView,
    stat: crate::stat::StatView,
    state: ReportView,
    event: ReportEvent,
    next: ReportView,
    action: ReportActionView,
)
    requires
        state is Initial,
        report_step(before, after, reporter, stat, state, event, next, action),
    ensures
        if next is Saving && next->Saving_news {
            let hash = crate::digest::blake3_of(next->Saving_code->0);
            &&& reporter.report_only_if_diff_mc
            &&& next->Saving_code is Some
            &&& crate::stacking::is_news(before, hash, reporter.original_hash)
            &&& after == crate::stacking::noted(before, hash)
            &&& stat.record == machine_code_counted(reporter.stat).record
        } else {
            &&& after == before
            &&& stat.record == reporter.stat.record
        },
{
}

/// Where only differing machine code matters, the oracle is asked only about a
/// variant that was held for news when its machine code was weighed.
pub proof fn law_oracle_is_asked_about_news(
    before: crate::stacking::StackingView,
    after: crate::stacking::StackingView,
    reporter: ReporterView,
    stat: crate::stat::StatView,
    state: ReportView,
    event: ReportEvent,
    next: ReportView,
    action: ReportActionView,
)
    requires
        reporter.report_only_if_diff_mc,
        report_step(before, after, reporter, stat, state, event, next, action),
    ensures
        action is CallOracle ==> (state is Saving && state->Saving_news) || (state is SavingCode
            && state->SavingCode_news),
        state is Saving && next is SavingCode ==> next->SavingCode_news == state->Saving_news,
        !(state is Initial) ==> after == before,
{
}

/// Where any machine code will do, the oracle is asked about every variant.
pub proof fn law_oracle_is_asked_about_everything(
    before: crate::stacking::StackingView,
    after: crate::stacking::StackingView,
    reporter: ReporterView,
    stat: crate::stat::StatView,
    state: ReportView,
    event: ReportEvent,
    next: ReportView,
    action: ReportActionView,
)
    requires
        !reporter.report_only_if_diff_mc,
        before.settings.oracle is Some,
        report_step(before, after, reporter, stat, state, event, next, action),
    ensures
        state is Initial ==> next is Saving,
        state is Saving ==> if before.settings.save_compiling {
            next is SavingCode
        } else {
            action is CallOracle
        },
        state is SavingCode ==> action is CallOracle,
        after == before,
{
}

/// What the oracle is given is the file that the variant was saved in.
pub proof fn law_oracle_is_given_the_saved_file(
    before: crate::stacking::StackingView,
    after: crate::stacking::StackingView,
    reporter: ReporterView,
    stat: crate::stat::StatView,
    state: ReportView,
    event: ReportEvent,
    next: ReportView,
    command: Seq<Seq<char>>,
)
    requires
        report_step(
            before,
            after,
            reporter,
            stat,
            state,
            event,
            next,
            ReportActionView::CallOracle { command },
        ),
    ensures
        match state {
            ReportView::Saving { base, .. } => command.last() == base + ".wasm"@,
            ReportView::SavingCode { base, .. } => command.last() == base + ".wasm"@,
            _ => false,
        },
{
}

/// How many steps a report may still take.
pub open spec fn report_steps_left(state: ReportView) -> nat {
    match state {
        ReportView::Initial { .. } => 5,
        ReportView::Saving { .. } => 4,
        ReportView::SavingCode { .. } => 3,
        ReportView::Asking { .. } => 2,
        ReportView::Stopping => 1,
        ReportView::Over => 0,
    }
}

/// A report comes to an end, and it is over exactly when the search is to go
/// on or to stop.
pub proof fn law_report_ends(
    before: crate::stacking::StackingView,
    after: crate::stacking::StackingView,
    reporter: ReporterView,
    stat: crate::stat::StatView,
    state: ReportView,
    event: ReportEvent,
    next: ReportView,
    action: ReportActionView,
)
    requires
        report_step(before, after, reporter, stat, state, event, next, action),
    ensures
        report_steps_left(next) < report_steps_left(state),
        next is Over <==> action is Continue || action is Stop,
{
}

/// The search stops only because the oracle ended with exit code 1.
pub proof fn law_only_the_oracle_stops(
    before: crate::stacking::StackingView,
    after: crate::stacking::StackingView,
    reporter: ReporterView,
    stat: crate::stat::StatView,
    state: ReportView,
    event: ReportEvent,
    next: ReportView,
    action: ReportActionView,
)
    requires
        report_step(before, after, reporter, stat, state, event, next, action),
    ensures
        state is Asking ==> ((action is Stop || action is SaveStat) <==> event
            == (ReportEvent::OracleExited { code: 1 })),
        action is Stop ==> state is Asking || state is Stopping,
        next is Stopping ==> state is Asking,
{
}

/// The oracle's time and the time of compiling are not counted: the timer
/// stands still then, and runs again once the search goes on.
pub proof fn law_timer_stands_still_for_the_oracle(
    before: crate::stacking::StackingView,
    after: crate::stacking::StackingView,
    reporter: ReporterView,
    stat: crate::stat::StatView,
    state: ReportView,
    event: ReportEvent,
    next: ReportView,
    action: ReportActionView,
)
    requires
        report_step(before, after, reporter, stat, state, event, next, action),
        state is Initial || state is Saving ==> reporter.stat.running,
    ensures
        next is Asking || next is SavingCode || next is Stopping ==> !stat.running,
        next is Saving || action is Continue ==> stat.running,
{
}

/// Where variants are stacked, the name of a variant's files is what all names
/// begin with, a dot, and the index in decimal digits.
pub proof fn law_stacked_name_holds_the_index(
    output: Seq<char>,
    parent: Seq<u8>,
    variant: Seq<u8>,
    index: nat,
)
    ensures
        ({
            let base = base_name(false, output, parent, variant, index);
            let digits = base.skip(output.len() + 1int);
            &&& base.len() > output.len() + 1
            &&& base.take(output.len() as int) == output
            &&& base[output.len() as int] == '.'
            &&& crate::text::decimal_value(digits) == index
            &&& digits == crate::text::decimal(index)
        }),
{
    reveal_strlit(".");
    let base = base_name(false, output, parent, variant, index);
    crate::text::law_decimal_stands_for_the_number(index);
    assert(base.take(output.len() as int) =~= output);
    assert(base.skip(output.len() + 1int) =~= crate::text::decimal(index));
}

/// Among random parents, the name of a variant's files is what all names begin
/// with, the hash of the parent, the hash of the variant and the word `chaos`,
/// with dots between them, whatever the index.
pub proof fn law_spread_name_holds_the_hashes(
    output: Seq<char>,
    parent: Seq<u8>,
    variant: Seq<u8>,
    index: nat,
)
    ensures
        crate::text::joined(
            seq![
                output,
                crate::digest::hex(crate::digest::blake3_of(parent)),
                crate::digest::hex(crate::digest::blake3_of(variant)),
                "chaos"@,
            ],
            '.',
        ) == base_name(true, output, parent, variant, index),
{
    reveal_strlit(".");
    reveal_strlit("chaos");
    reveal_strlit(".chaos");
    reveal_with_fuel(crate::text::joined, 5);
    let p = crate::digest::hex(crate::digest::blake3_of(parent));
    let v = crate::digest::hex(crate::digest::blake3_of(variant));
    assert(seq![output, p, v, "chaos"@].drop_last() =~= seq![output, p, v]);
    assert(seq![output, p, v].drop_last() =~= seq![output, p]);
    assert(seq![output, p].drop_last() =~= seq![output]);
    assert(".chaos"@ =~= seq!['.'] + "chaos"@);
    assert(crate::text::joined(seq![output, p, v, "chaos"@], '.') =~= base_name(
        true,
        output,
        parent,
        variant,
        index,
    ));
}

/// The hash that stands for the original's machine code is that of the machine
/// code itself, or that of the word `empty` where there is none.
pub proof fn law_reference_hash_is_the_originals(
    execution: crate::execution::ExecutionView,
    word: Seq<u8>,
)
    requires
        word.len() == 5,
        word[0] == 'e' as u8,
        word[1] == 'm' as u8,
        word[2] == 'p' as u8,
        word[3] == 't' as u8,
        word[4] == 'y' as u8,
    ensures
        reference_hash(Some(execution)) == crate::digest::blake3_of(execution.machine_code),
        reference_hash(None) == crate::digest::blake3_of(word),
{
    assert(word =~= empty_word());
}

/// A report first saves the variant, all of it, under the name of its files, and
/// carries that name, the variant and the count on. Only where differing machine
/// code matters, and the variant compiles to the original's, does it save
/// nothing.
pub proof fn law_report_saves_the_variant(
    before: crate::stacking::StackingView,
    after: crate::stacking::StackingView,
    reporter: ReporterView,
    stat: crate::stat::StatView,
    state: ReportView,
    event: ReportEvent,
    next: ReportView,
    action: ReportActionView,
)
    requires
        state is Initial,
        report_step(before, after, reporter, stat, state, event, next, action),
    ensures
        action is Write || action is Continue,
        action is Write ==> {
            let base = base_name(
                before.settings.chaos_mode,
                reporter.output,
                state->Initial_parent,
                state->Initial_variant,
                state->Initial_index as nat,
            );
            &&& action->Write_name == base + ".wasm"@
            &&& action->Write_contents == state->Initial_variant
            &&& next is Saving
            &&& next->Saving_variant == state->Initial_variant
            &&& next->Saving_base == base
            &&& next->Saving_count == state->Initial_count
            &&& next->Saving_code is Some <==> reporter.report_only_if_diff_mc
            &&& next->Saving_code matches Some(code) ==> compile_outcome(
                state->Initial_variant,
                Some(code),
            ) && crate::digest::blake3_of(code) != reporter.original_hash
            &&& stat.running == (reporter.stat.running || reporter.report_only_if_diff_mc)
        },
        action is Continue ==> {
            &&& reporter.report_only_if_diff_mc
            &&& exists|code: Seq<u8>| #[trigger]
                compile_outcome(state->Initial_variant, Some(code)) && crate::digest::blake3_of(
                    code,
                ) == reporter.original_hash
            &&& next is Over
            &&& stat.running
            &&& stat.record == reporter.stat.record
            &&& after == before
        },
{
}

/// Where only differing machine code matters, a saved variant is held for news
/// exactly if its machine code is not the original's and was not noted before.
/// It is then noted, and no other machine code is noted or forgotten.
pub proof fn law_new_code_is_held_for_news(
    before: crate::stacking::StackingView,
    after: crate::stacking::StackingView,
    reporter: ReporterView,
    stat: crate::stat::StatView,
    state: ReportView,
    event: ReportEvent,
    next: ReportView,
    action: ReportActionView,
    hash: Seq<u8>,
)
    requires
        reporter.report_only_if_diff_mc,
        state is Initial,
        next is Saving,
        report_step(before, after, reporter, stat, state, event, next, action),
    ensures
        ({
            let found = crate::digest::blake3_of(next->Saving_code->0);
            &&& next->Saving_code is Some
            &&& found != reporter.original_hash
            &&& next->Saving_news <==> !before.machine_codes.contains_key(found)
            &&& after.machine_codes.contains_key(found)
            &&& hash != found ==> after.machine_codes.contains_key(hash)
                == before.machine_codes.contains_key(hash)
            &&& next->Saving_news ==> stat.record.unique_machine_codes == (
            reporter.stat.record.unique_machine_codes + 1) as usize
            &&& !next->Saving_news ==> stat.record.unique_machine_codes
                == reporter.stat.record.unique_machine_codes
        }),
{
}

/// What is counted: one binary for each variant that was saved, and one machine
/// code for each that is news. Nothing else is, until the search ends with the
/// statistics, which give the report's count as that of the binaries.
pub proof fn law_each_saved_variant_counts_once(
    before: crate::stacking::StackingView,
    after: crate::stacking::StackingView,
    reporter: ReporterView,
    stat: crate::stat::StatView,
    state: ReportView,
    event: ReportEvent,
    next: ReportView,
    action: ReportActionView,
)
    requires
        reporter.stat.record.generated_binaries < usize::MAX,
        reporter.stat.record.unique_machine_codes < usize::MAX,
        report_step(before, after, reporter, stat, state, event, next, action),
    ensures
        match state {
            ReportView::Saving { .. } => stat.record.generated_binaries
                == reporter.stat.record.generated_binaries + 1,
            ReportView::Asking { count } => stat.record.generated_binaries == if action
                is SaveStat {
                count
            } else {
                reporter.stat.record.generated_binaries
            },
            _ => stat.record.generated_binaries == reporter.stat.record.generated_binaries,
        },
        stat.record.unique_machine_codes == reporter.stat.record.unique_machine_codes + if state
            is Initial && next is Saving && next->Saving_news {
            1int
        } else {
            0
        },
        stat.record.total_rotations == reporter.stat.record.total_rotations,
        !(action is SaveStat) ==> stat.record.elapsed_nanos == reporter.stat.record.elapsed_nanos,
{
}

/// Once the variant is saved, its machine code is, beside it, where that is
/// asked for: the one it was compiled to beforehand, if it was. Nothing else of
/// the report changes.
pub proof fn law_machine_code_is_saved_beside_the_variant(
    before: crate::stacking::StackingView,
    after: crate::stacking::StackingView,
    reporter: ReporterView,
    stat: crate::stat::StatView,
    state: ReportView,
    event: ReportEvent,
    next: ReportView,
    action: ReportActionView,
)
    requires
        state is Saving,
        report_step(before, after, reporter, stat, state, event, next, action),
    ensures
        action is Write <==> before.settings.save_compiling,
        before.settings.save_compiling ==> {
            &&& action->Write_name == state->Saving_base + ".cwasm"@
            &&& state->Saving_code is Some ==> action->Write_contents == state->Saving_code->0
            &&& state->Saving_code is None ==> compile_outcome(
                state->Saving_variant,
                Some(action->Write_contents),
            )
            &&& next is SavingCode
            &&& next->SavingCode_base == state->Saving_base
            &&& next->SavingCode_count == state->Saving_count
            &&& next->SavingCode_news == state->Saving_news
            &&& !stat.running
        },
        after == before,
{
}

/// Once everything is saved, the oracle is asked, if there is one, about every
/// variant or, where only differing machine code matters, about one that is
/// held for news. Its command is the oracle's, word by word, with the saved file
/// behind it.
pub proof fn law_oracle_is_run_as_given(
    before: crate::stacking::StackingView,
    after: crate::stacking::StackingView,
    reporter: ReporterView,
    stat: crate::stat::StatView,
    state: ReportView,
    event: ReportEvent,
    next: ReportView,
    action: ReportActionView,
    base: Seq<char>,
    count: usize,
    news: bool,
)
    requires
        state == (ReportView::SavingCode { base, count, news }) || !before.settings.save_compiling
            && state is Saving && state->Saving_base == base && state->Saving_count == count
            && state->Saving_news == news,
        report_step(before, after, reporter, stat, state, event, next, action),
    ensures
        action is CallOracle <==> before.settings.oracle is Some && (news
            || !reporter.report_only_if_diff_mc),
        action is CallOracle || action is Continue,
        action is CallOracle ==> {
            let command = action->CallOracle_command;
            &&& command.len() >= 2
            &&& command.last() == base + ".wasm"@
            &&& crate::text::joined(command.drop_last(), ' ') == before.settings.oracle->0
            &&& forall|i: int|
                0 <= i < command.len() - 1 ==> !(#[trigger] command[i]).contains(' ')
            &&& next == ReportView::Asking { count }
            &&& !stat.running
        },
        action is Continue ==> next is Over,
        after == before,
{
    if let Some(oracle) = before.settings.oracle {
        let words = crate::text::pieces(oracle, ' ');
        crate::text::law_split_then_join(oracle, ' ');
        crate::text::law_pieces_hold_no_separator(oracle, ' ');
        let command = words.push(base + ".wasm"@);
        assert(command.drop_last() =~= words);
        assert forall|i: int| 0 <= i < command.len() - 1 implies !(
        #[trigger] command[i]).contains(' ') by {
            assert(command[i] == words[i]);
        }
    }
}

/// What the oracle's exit code leads to: 1 ends the search, with the statistics
/// saved first among random parents where machine code is saved; any other lets
/// it go on with the timer running.
pub proof fn law_exit_code_decides(
    before: crate::stacking::StackingView,
    after: crate::stacking::StackingView,
    reporter: ReporterView,
    stat: crate::stat::StatView,
    state: ReportView,
    event: ReportEvent,
    next: ReportView,
    action: ReportActionView,
    count: usize,
    code: i32,
)
    requires
        state == (ReportView::Asking { count }),
        event == (ReportEvent::OracleExited { code }),
        report_step(before, after, reporter, stat, state, event, next, action),
    ensures
        code != 1 ==> action is Continue && next is Over && stat.running,
        code == 1 && !(before.settings.chaos_mode && before.settings.save_compiling) ==> action
            is Stop && next is Over && !stat.running,
        code == 1 && before.settings.chaos_mode && before.settings.save_compiling ==> {
            &&& action is SaveStat
            &&& action->SaveStat_name == reporter.output + ".chaos.json"@
            &&& action->SaveStat_record == stat.record
            &&& stat.record.generated_binaries == count
            &&& stat.record.unique_machine_codes == reporter.stat.record.unique_machine_codes
            &&& stat.record.total_rotations == reporter.stat.record.total_rotations
            &&& next is Stopping
            &&& !stat.running
        },
        after == before,
{
}

/// Every report that is not over can be taken further, whatever the oracle's
/// exit code is.
pub proof fn law_report_can_be_taken_further(state: ReportView, code: i32)
    requires
        !(state is Over),
    ensures
        state is Asking ==> report_expects(state, ReportEvent::OracleExited { code }),
        !(state is Asking) ==> report_expects(state, ReportEvent::Done),
{
}

/// Once the statistics are saved, the search ends.
pub proof fn law_search_ends_with_the_statistics(
    before: crate::stacking::StackingView,
    after: crate::stacking::StackingView,
    reporter: ReporterView,
    stat: crate::stat::StatView,
    state: ReportView,
    event: ReportEvent,
    next: ReportView,
    action: ReportActionView,
)
    requires
        state is Stopping,
        report_step(before, after, reporter, stat, state, event, next, action),
    ensures
        action is Stop,
        next is Over,
        stat == reporter.stat,
        after == before,
{
}

/// A report fails only where the variant may not compile, or where the machine
/// code that it may compile to, which is not the original's, may not be looked
/// up or, not being noted yet, may not be noted.
pub proof fn law_report_fails_only_for_a_reason(
    search: crate::stacking::StackingView,
    reporter: ReporterView,
    stat: crate::stat::StatView,
    state: ReportView,
    error: ReportError,
)
    requires
        report_fails(search, reporter, stat, state, error),
    ensures
        state is Initial || state is Saving,
        state is Initial ==> reporter.report_only_if_diff_mc,
        state is Saving ==> search.settings.save_compiling && state->Saving_code is None,
        !stat.running,
        match error {
            ReportError::NotCompiled => match state {
                ReportView::Initial { variant, .. } => compile_outcome(variant, None),
                ReportView::Saving { variant, .. } => compile_outcome(variant, None),
                _ => false,
            },
            ReportError::Search(cause) => state is Initial && exists|code: Seq<u8>| #[trigger]
                compile_outcome(state->Initial_variant, Some(code)) && {
                    let hash = crate::digest::blake3_of(code);
                    &&& hash != reporter.original_hash
                    &&& match cause {
                        StackingError::Cache(crate::cache::CacheError::Read) =>
                            crate::cache::lookup_outcome(search.machine_codes, hash, None),
                        StackingError::Cache(crate::cache::CacheError::Write) =>
                            !search.machine_codes.contains_key(hash)
                                && crate::cache::insert_outcome(
                                search.machine_codes,
                                hash,
                                Seq::empty(),
                                false,
                            ),
                        _ => false,
                    }
                },
        },
{
}

/// What is to be done is seen as it is.
pub proof fn law_report_actions_are_seen_as_they_are(action: ReportAction)
    ensures
        match action {
            ReportAction::Write { name, contents } => action@ == (ReportActionView::Write {
                name: name@,
                contents: contents@,
            }),
            ReportAction::CallOracle { command } => action@ is CallOracle
                && action@->CallOracle_command == crate::text::texts(command@),
            ReportAction::SaveStat { name, record } => action@ == (ReportActionView::SaveStat {
                name: name@,
                record,
            }),
            ReportAction::Continue => action@ is Continue,
            ReportAction::Stop => action@ is Stop,
        },
{
}

} // verus!
