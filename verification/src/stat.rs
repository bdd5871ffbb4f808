//! Statistics of a search.

use pausable_clock::PausableClock;
use std::time::{Duration, Instant};
use vstd::prelude::*;

verus! {

#[verifier::external_type_specification]
#[verifier::external_body]
pub struct ExPausableClock(PausableClock);

#[verifier::external_type_specification]
#[verifier::external_body]
pub struct ExInstant(Instant);

/// Whether a clock is running.
pub uninterp spec fn clock_running(clock: PausableClock) -> bool;

/// What a clock showed last, in nanoseconds on the time line of
/// [`instant_nanos`]: what it shows all the time while it stands still, and what
/// it does not fall below while it runs.
pub uninterp spec fn clock_shown(clock: PausableClock) -> int;

/// Where an instant lies on the time line, in nanoseconds from some fixed
/// point.
pub uninterp spec fn instant_nanos(instant: Instant) -> int;

/// The length of a duration, in nanoseconds.
pub uninterp spec fn duration_nanos(duration: Duration) -> nat;

/// Calls `PausableClock::default`: a clock that runs.
#[verifier::external_body]
fn clock_default() -> (clock: PausableClock)
    ensures
        clock_running(clock),
{
    PausableClock::default()
}

/// Calls `PausableClock::pause`: the clock stands still afterwards, at no less
/// than it has shown, and where it stood before if it stood still. It says
/// whether the clock was running. The clock is not shared, so that nobody else
/// can set it going.
#[verifier::external_body]
fn clock_pause(clock: &mut PausableClock) -> (changed: bool)
    ensures
        !clock_running(*final(clock)),
        changed == clock_running(*old(clock)),
        clock_shown(*final(clock)) >= clock_shown(*old(clock)),
        !clock_running(*old(clock)) ==> clock_shown(*final(clock)) == clock_shown(*old(clock)),
{
    clock.pause()
}

/// Calls `PausableClock::resume`: the clock runs afterwards, on from where it
/// stood. It says whether the clock stood still. The clock is not shared, so
/// that nobody else can stop it.
#[verifier::external_body]
fn clock_resume(clock: &mut PausableClock) -> (changed: bool)
    ensures
        clock_running(*final(clock)),
        changed == !clock_running(*old(clock)),
        clock_shown(*final(clock)) == clock_shown(*old(clock)),
{
    clock.resume()
}

/// Calls `PausableClock::now`. A clock that stands still gives the instant at
/// which it stands; one that runs gives no earlier instant than it has given
/// before. How much later it is depends on the time.
#[verifier::external_body]
fn clock_now(clock: &mut PausableClock) -> (reading: Instant)
    ensures
        clock_running(*final(clock)) == clock_running(*old(clock)),
        clock_shown(*final(clock)) == instant_nanos(reading),
        instant_nanos(reading) >= clock_shown(*old(clock)),
        !clock_running(*old(clock)) ==> instant_nanos(reading) == clock_shown(*old(clock)),
{
    Instant::from(clock.now())
}

/// `Instant::now`: depends on the time.
pub assume_specification[ Instant::now ]() -> (reading: Instant)
;

/// `Instant::duration_since`: the time from the earlier instant to the later
/// one, and none at all if they come the other way round.
pub assume_specification[ Instant::duration_since ](later: &Instant, earlier: Instant) -> (elapsed:
    Duration)
    ensures
        duration_nanos(elapsed) == time_between(instant_nanos(earlier), instant_nanos(*later)),
;

/// `Duration::as_nanos`: the length of a duration.
pub assume_specification[ Duration::as_nanos ](elapsed: &Duration) -> (nanos: u128)
    ensures
        nanos == duration_nanos(*elapsed),
;

/// The time from one point of the time line to another, or none at all if the
/// second comes first.
pub open spec fn time_between(from: int, to: int) -> nat {
    if from <= to {
        (to - from) as nat
    } else {
        0
    }
}

/// The time from a start to a reading, in nanoseconds.
pub fn nanos_since(reading: Instant, start: Instant) -> (nanos: u128)
    ensures
        nanos == time_between(instant_nanos(start), instant_nanos(reading)),
{
    reading.duration_since(start).as_nanos()
}

/// What is measured and counted in the course of a search.
pub struct Stat {
    /// Measures the time spent on mutating.
    timer: PausableClock,
    now: Instant,
    /// The number of rotations.
    pub total_rotations: usize,
    elapsed_nanos: u128,
    /// The number of generated binaries.
    pub generated_binaries: usize,
    /// The number of unique generated machine codes.
    pub unique_machine_codes: usize,
}

/// The numbers of a [`Stat`].
#[derive(Clone, Copy, Debug, PartialEq, Eq, Structural)]
pub struct StatRecord {
    pub total_rotations: usize,
    pub elapsed_nanos: u128,
    pub generated_binaries: usize,
    pub unique_machine_codes: usize,
}

/// The contents of a [`Stat`].
pub struct StatView {
    /// The numbers, with the time as of when it was last written down.
    pub record: StatRecord,
    /// Whether the timer is running.
    pub running: bool,
}

/// The timer of a [`Stat`].
pub struct TimerView {
    pub running: bool,
    /// When the measurement began.
    pub start: int,
    /// What the timer showed last.
    pub shown: int,
}

impl TimerView {
    /// The time that was measured when the timer was last looked at; while it
    /// stands still, the time that it shows.
    pub open spec fn nanos(self) -> nat {
        time_between(self.start, self.shown)
    }
}

/// How a timer is stopped: one that runs may have gone on since it was last
/// looked at; one that stands still stays as it is.
pub open spec fn pauses(before: TimerView, after: TimerView) -> bool {
    &&& !after.running
    &&& after.start == before.start
    &&& after.shown >= before.shown
    &&& !before.running ==> after == before
}

/// How a timer is set going again: on from where it stood.
pub open spec fn resumes(before: TimerView, after: TimerView) -> bool {
    after == TimerView { running: true, ..before }
}

/// How a timer is read: one that stands still shows what it showed; one that
/// runs never goes back.
pub open spec fn reads(before: TimerView, after: TimerView, nanos: u128) -> bool {
    &&& nanos == after.nanos()
    &&& after == TimerView { shown: after.shown, ..before }
    &&& after.shown >= before.shown
    &&& !before.running ==> after == before
}

impl View for Stat {
    type V = StatView;

    closed spec fn view(&self) -> StatView {
        StatView {
            record: StatRecord {
                total_rotations: self.total_rotations,
                elapsed_nanos: self.elapsed_nanos,
                generated_binaries: self.generated_binaries,
                unique_machine_codes: self.unique_machine_codes,
            },
            running: clock_running(self.timer),
        }
    }
}

impl Stat {
    /// The timer.
    pub closed spec fn time(&self) -> TimerView {
        TimerView {
            running: clock_running(self.timer),
            start: instant_nanos(self.now),
            shown: clock_shown(self.timer),
        }
    }

    /// Whether the timer runs can be seen in both views.
    pub proof fn lemma_running(&self)
        ensures
            self.time().running == self@.running,
    {
    }

    /// Starts the timer, with everything at zero.
    pub fn new() -> (stat: Self)
        ensures
            stat@ == (StatView {
                record: StatRecord {
                    total_rotations: 0,
                    elapsed_nanos: 0,
                    generated_binaries: 0,
                    unique_machine_codes: 0,
                },
                running: true,
            }),
    {
        Stat {
            timer: clock_default(),
            now: Instant::now(),
            total_rotations: 0,
            elapsed_nanos: 0,
            generated_binaries: 0,
            unique_machine_codes: 0,
        }
    }

    /// Stops the timer.
    pub fn pause(&mut self)
        ensures
            final(self)@ == (StatView { running: false, ..old(self)@ }),
            pauses(old(self).time(), final(self).time()),
    {
        clock_pause(&mut self.timer);
    }

    /// Lets the timer run on.
    pub fn unpause(&mut self)
        ensures
            final(self)@ == (StatView { running: true, ..old(self)@ }),
            resumes(old(self).time(), final(self).time()),
    {
        clock_resume(&mut self.timer);
    }

    /// The time on the timer.
    pub fn get_nanos(&mut self) -> (nanos: u128)
        ensures
            final(self)@ == old(self)@,
            reads(old(self).time(), final(self).time(), nanos),
    {
        let reading: Instant = clock_now(&mut self.timer);
        nanos_since(reading, self.now)
    }

    /// Counts a generated binary.
    pub fn count_binary(&mut self)
        requires
            old(self)@.record.generated_binaries < usize::MAX,
        ensures
            final(self)@ == (StatView {
                record: StatRecord {
                    generated_binaries: (old(self)@.record.generated_binaries + 1) as usize,
                    ..old(self)@.record
                },
                ..old(self)@
            }),
            final(self).time() == old(self).time(),
    {
        self.generated_binaries = self.generated_binaries + 1;
    }

    /// Counts a unique machine code.
    pub fn count_machine_code(&mut self)
        requires
            old(self)@.record.unique_machine_codes < usize::MAX,
        ensures
            final(self)@ == (StatView {
                record: StatRecord {
                    unique_machine_codes: (old(self)@.record.unique_machine_codes + 1) as usize,
                    ..old(self)@.record
                },
                ..old(self)@
            }),
            final(self).time() == old(self).time(),
    {
        self.unique_machine_codes = self.unique_machine_codes + 1;
    }

    /// Sets the number of generated binaries.
    pub fn set_generated_binaries(&mut self, count: usize)
        ensures
            final(self)@ == (StatView {
                record: StatRecord { generated_binaries: count, ..old(self)@.record },
                ..old(self)@
            }),
            final(self).time() == old(self).time(),
    {
        self.generated_binaries = count;
    }

    /// The numbers.
    pub fn record(&self) -> (record: StatRecord)
        ensures
            record == self@.record,
    {
        StatRecord {
            total_rotations: self.total_rotations,
            elapsed_nanos: self.elapsed_nanos,
            generated_binaries: self.generated_binaries,
            unique_machine_codes: self.unique_machine_codes,
        }
    }

    /// Writes down the time on the timer, and gives all the numbers.
    pub fn serialize(&mut self) -> (record: StatRecord)
        ensures
            final(self)@ == (StatView {
                record: StatRecord {
                    elapsed_nanos: record.elapsed_nanos,
                    ..old(self)@.record
                },
                ..old(self)@
            }),
            record == final(self)@.record,
            reads(old(self).time(), final(self).time(), record.elapsed_nanos),
    {
        self.elapsed_nanos = self.get_nanos();
        self.record()
    }
}

/// A timer that stands still shows the same however often it is read.
pub proof fn law_paused_timer_stands_still(
    before: TimerView,
    between: TimerView,
    after: TimerView,
    first: u128,
    second: u128,
)
    requires
        !before.running,
        reads(before, between, first),
        reads(between, after, second),
    ensures
        first == second,
        first == before.nanos(),
{
}

/// A timer never goes back, whether it runs or not.
pub proof fn law_timer_never_goes_back(
    before: TimerView,
    between: TimerView,
    after: TimerView,
    first: u128,
    second: u128,
)
    requires
        reads(before, between, first),
        reads(between, after, second),
    ensures
        first <= second,
{
}

/// The time that a timer stands still is not counted, and none that it ran is
/// lost: set going again it is as it was when it was stopped, and goes on from
/// there.
pub proof fn law_paused_span_is_not_counted(
    before: TimerView,
    paused: TimerView,
    read: TimerView,
    resumed: TimerView,
    after: TimerView,
    standing: u128,
    later: u128,
)
    requires
        pauses(before, paused),
        reads(paused, read, standing),
        resumes(read, resumed),
        reads(resumed, after, later),
    ensures
        before.nanos() <= standing,
        resumed == (TimerView { running: true, ..paused }),
        resumed.nanos() == standing,
        standing <= later,
{
}

/// The time between two points of the time line leads from the one to the
/// other; it is none at all if the second does not come later, and the times of
/// two stretches, one after the other, add up.
pub proof fn law_times_add_up(from: int, between: int, to: int)
    ensures
        from <= to ==> from + time_between(from, to) == to,
        from >= to ==> time_between(from, to) == 0,
        from <= between <= to ==> time_between(from, between) + time_between(between, to)
            == time_between(from, to),
{
}

/// What is read off a timer is the time from when the measurement began to what
/// it now shows, and reading changes neither when the measurement began nor
/// whether the timer runs.
pub proof fn law_reading_is_the_time_since_the_start(
    before: TimerView,
    after: TimerView,
    nanos: u128,
)
    requires
        reads(before, after, nanos),
    ensures
        before.start <= after.shown ==> before.start + nanos == after.shown,
        before.start > after.shown ==> nanos == 0,
        after.start == before.start,
        after.running == before.running,
        after.shown >= before.shown,
        !before.running ==> after.shown == before.shown,
{
}

/// Stopping a timer and setting it going leave alone when the measurement
/// began. A timer that runs shows no less when it is stopped; one that stands
/// still shows the same whether it is stopped again or set going.
pub proof fn law_switching_keeps_the_measurement(
    before: TimerView,
    paused: TimerView,
    resumed: TimerView,
)
    requires
        pauses(before, paused),
        resumes(paused, resumed),
    ensures
        !paused.running,
        resumed.running,
        paused.start == before.start,
        resumed.start == before.start,
        paused.shown >= before.shown,
        !before.running ==> paused.shown == before.shown,
        resumed.shown == paused.shown,
{
}

} // verus!
