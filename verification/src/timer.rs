//! The countdown of one session, and the queue of sessions to play in a row.

use vstd::prelude::*;
use std::time::Instant;
use crate::storage::Settings;

verus! {

/// Where the countdown stands.
#[derive(Debug, Clone, Copy, PartialEq, Eq, Structural)]
pub enum TimerState {
    Idle,
    Running,
    Paused,
    Finished,
}

/// The kind of a timed session.
#[derive(Debug, Clone, Copy, PartialEq, Eq, Structural)]
pub enum SessionType {
    Focus,
    ShortBreak,
    LongBreak,
}

impl SessionType {
    /// The configured length of a session of this kind, in minutes.
    pub open spec fn minutes(self, settings: Settings) -> nat {
        match self {
            SessionType::Focus => settings.focus_duration as nat,
            SessionType::ShortBreak => settings.short_break_duration as nat,
            SessionType::LongBreak => settings.long_break_duration as nat,
        }
    }

    /// The configured length of a session of this kind, in seconds.
    pub open spec fn seconds(self, settings: Settings) -> nat {
        self.minutes(settings) * 60
    }

    /// The configured length of a session of this kind, in minutes.
    pub fn duration_minutes(&self, settings: &Settings) -> (m: u64)
        ensures
            m == self.minutes(*settings),
    {
        match self {
            SessionType::Focus => settings.focus_duration,
            SessionType::ShortBreak => settings.short_break_duration,
            SessionType::LongBreak => settings.long_break_duration,
        }
    }
}

/// The countdown timer. `last_tick` is the reading of the monotonic clock
/// from which elapsed time is measured while the timer runs, and
/// `counted_seconds` the whole seconds since that reading which have already
/// been taken off `remaining_seconds`.
#[derive(Debug)]
pub struct Timer {
    pub state: TimerState,
    pub session_type: SessionType,
    pub duration_seconds: u64,
    pub remaining_seconds: u64,
    pub auto_run: Vec<SessionType>,
    pub auto_run_index: Option<usize>,
    pub last_tick: Option<Instant>,
    pub counted_seconds: u64,
}

/// A timer as a mathematical value. Of the clock reading it keeps only
/// whether there is one.
pub struct TimerView {
    pub state: TimerState,
    pub session_type: SessionType,
    pub duration_seconds: nat,
    pub remaining_seconds: nat,
    pub auto_run: Seq<SessionType>,
    pub auto_run_index: Option<nat>,
    pub anchored: bool,
    pub counted_seconds: nat,
}

impl View for Timer {
    type V = TimerView;

    open spec fn view(&self) -> TimerView {
        TimerView {
            state: self.state,
            session_type: self.session_type,
            duration_seconds: self.duration_seconds as nat,
            remaining_seconds: self.remaining_seconds as nat,
            auto_run: self.auto_run@,
            auto_run_index: match self.auto_run_index {
                Some(i) => Some(i as nat),
                None => None,
            },
            anchored: self.last_tick is Some,
            counted_seconds: self.counted_seconds as nat,
        }
    }
}

impl TimerView {
    /// No more time remains than the session lasts.
    pub open spec fn wf(self) -> bool {
        self.remaining_seconds <= self.duration_seconds
    }

    /// An idle Focus timer with an empty queue.
    pub open spec fn fresh(settings: Settings) -> TimerView {
        TimerView {
            state: TimerState::Idle,
            session_type: SessionType::Focus,
            duration_seconds: SessionType::Focus.seconds(settings),
            remaining_seconds: SessionType::Focus.seconds(settings),
            auto_run: Seq::empty(),
            auto_run_index: None,
            anchored: false,
            counted_seconds: 0,
        }
    }

    /// Idle and Paused timers run, measuring from a new clock reading; others
    /// stay as they are.
    pub open spec fn started(self) -> TimerView {
        if self.state == TimerState::Idle || self.state == TimerState::Paused {
            TimerView { state: TimerState::Running, anchored: true, counted_seconds: 0, ..self }
        } else {
            self
        }
    }

    /// A Running timer pauses and drops its clock reading; others stay as
    /// they are.
    pub open spec fn paused(self) -> TimerView {
        if self.state == TimerState::Running {
            TimerView { state: TimerState::Paused, anchored: false, counted_seconds: 0, ..self }
        } else {
            self
        }
    }

    /// A Paused timer runs again, measuring from a new clock reading; others
    /// stay as they are.
    pub open spec fn resumed(self) -> TimerView {
        if self.state == TimerState::Paused {
            TimerView { state: TimerState::Running, anchored: true, counted_seconds: 0, ..self }
        } else {
            self
        }
    }

    /// Back to Idle with the full session length remaining.
    pub open spec fn stopped(self) -> TimerView {
        TimerView {
            state: TimerState::Idle,
            remaining_seconds: self.duration_seconds,
            anchored: false,
            counted_seconds: 0,
            ..self
        }
    }

    /// Idle on a session of the given kind, with its configured length
    /// remaining.
    pub open spec fn with_session(self, session_type: SessionType, settings: Settings) -> TimerView {
        TimerView {
            state: TimerState::Idle,
            session_type,
            duration_seconds: session_type.seconds(settings),
            remaining_seconds: session_type.seconds(settings),
            ..self
        }
    }

    /// What is left of `remaining_seconds` after `step` more seconds.
    pub open spec fn left_after(self, step: nat) -> nat {
        if step >= self.remaining_seconds {
            0
        } else {
            (self.remaining_seconds - step) as nat
        }
    }

    /// A Running timer after `step` further whole seconds, and whether the
    /// session finished with them. Nothing happens to a timer that does not
    /// run, nor when no whole second has passed.
    pub open spec fn advanced(self, step: nat) -> (TimerView, bool) {
        if self.state == TimerState::Running && step >= 1 {
            if self.left_after(step) == 0 {
                (TimerView { state: TimerState::Finished, remaining_seconds: 0, ..self }, true)
            } else {
                (TimerView { remaining_seconds: self.left_after(step), ..self }, false)
            }
        } else {
            (self, false)
        }
    }

    /// The timer after a tick at which `total` whole seconds have passed
    /// since its clock reading, and whether the session finished at this
    /// tick. Only the seconds not yet counted are taken off.
    pub open spec fn ticked(self, total: nat) -> (TimerView, bool) {
        if self.state == TimerState::Running && self.anchored && total > self.counted_seconds {
            (TimerView { counted_seconds: total, ..self }).advanced(
                (total - self.counted_seconds) as nat,
            )
        } else {
            (self, false)
        }
    }

    /// With one more session at the end of the queue.
    pub open spec fn queued(self, session: SessionType) -> TimerView {
        TimerView { auto_run: self.auto_run.push(session), ..self }
    }

    /// Where the mark of the session being played stands once the queue entry
    /// at `index` is gone: cleared if it stood on that entry, one lower if it
    /// stood behind it, unchanged before it.
    pub open spec fn index_without(self, index: nat) -> Option<nat> {
        match self.auto_run_index {
            Some(i) => if i == index {
                None
            } else if i > index {
                Some((i - 1) as nat)
            } else {
                Some(i)
            },
            None => None,
        }
    }

    /// Without the queue entry at `index`; unchanged if there is none.
    pub open spec fn dequeued(self, index: nat) -> TimerView {
        if index < self.auto_run.len() {
            TimerView {
                auto_run: self.auto_run.remove(index as int),
                auto_run_index: self.index_without(index),
                ..self
            }
        } else {
            self
        }
    }

    /// Starts, pauses or resumes, as the space bar does: an Idle timer
    /// starts, a Running one pauses, a Paused one resumes, a Finished one
    /// stays as it is.
    pub open spec fn toggled(self) -> TimerView {
        match self.state {
            TimerState::Idle => self.started(),
            TimerState::Running => self.paused(),
            TimerState::Paused => self.resumed(),
            TimerState::Finished => self,
        }
    }

    /// The session that stands in the queue behind the one being played, if
    /// one is being played and one stands behind it.
    pub open spec fn queued_next(self) -> Option<SessionType> {
        match self.auto_run_index {
            Some(i) => if i + 1 < self.auto_run.len() {
                Some(self.auto_run[i as int + 1])
            } else {
                None
            },
            None => None,
        }
    }

    /// The timer after the session it played from the queue has finished:
    /// if the queue holds a session behind the one marked, that session is
    /// marked, selected and started; if it holds none, the mark is cleared.
    /// A timer that does not play from the queue stays as it is.
    pub open spec fn auto_advanced(self, settings: Settings) -> TimerView {
        match self.auto_run_index {
            Some(i) => match self.queued_next() {
                Some(next) => (TimerView { auto_run_index: Some(i + 1), ..self }).with_session(
                    next,
                    settings,
                ).started(),
                None => TimerView { auto_run_index: None, ..self },
            },
            None => self,
        }
    }

    /// The share of the session that has passed, in percent, rounded down.
    /// A session without length has no progress to show.
    pub open spec fn progress(self) -> nat {
        if self.duration_seconds == 0 || self.remaining_seconds >= self.duration_seconds {
            0
        } else {
            ((self.duration_seconds - self.remaining_seconds) * 100 / (
            self.duration_seconds as int)) as nat
        }
    }
}

impl Timer {
    /// An idle Focus timer with an empty queue.
    pub fn new(settings: &Settings) -> (t: Timer)
        requires
            SessionType::Focus.seconds(*settings) <= u64::MAX,
        ensures
            t@ == TimerView::fresh(*settings),
            t@.wf(),
    {
        let seconds = SessionType::Focus.duration_minutes(settings) * 60;
        Timer {
            state: TimerState::Idle,
            session_type: SessionType::Focus,
            duration_seconds: seconds,
            remaining_seconds: seconds,
            auto_run: Vec::new(),
            auto_run_index: None,
            last_tick: None,
            counted_seconds: 0,
        }
    }

    /// Starts an Idle or Paused timer; a Running or Finished one is left alone.
    pub fn start(&mut self)
        ensures
            final(self)@ == old(self)@.started(),
            old(self)@.wf() ==> final(self)@.wf(),
    {
        if self.state == TimerState::Idle || self.state == TimerState::Paused {
            self.state = TimerState::Running;
            self.last_tick = Some(Instant::now());
            self.counted_seconds = 0;
        }
    }

    /// Pauses a Running timer; any other is left alone.
    pub fn pause(&mut self)
        ensures
            final(self)@ == old(self)@.paused(),
            old(self)@.wf() ==> final(self)@.wf(),
    {
        if self.state == TimerState::Running {
            self.state = TimerState::Paused;
            self.last_tick = None;
            self.counted_seconds = 0;
        }
    }

    /// Lets a Paused timer run again; any other is left alone.
    pub fn resume(&mut self)
        ensures
            final(self)@ == old(self)@.resumed(),
            old(self)@.wf() ==> final(self)@.wf(),
    {
        if self.state == TimerState::Paused {
            self.state = TimerState::Running;
            self.last_tick = Some(Instant::now());
            self.counted_seconds = 0;
        }
    }

    /// Stops the countdown, whatever its state, and winds it back to the full
    /// session length.
    pub fn stop(&mut self)
        ensures
            final(self)@ == old(self)@.stopped(),
            final(self)@.state == TimerState::Idle,
            final(self)@.remaining_seconds == final(self)@.duration_seconds,
            final(self)@.wf(),
    {
        self.state = TimerState::Idle;
        self.remaining_seconds = self.duration_seconds;
        self.last_tick = None;
        self.counted_seconds = 0;
    }

    /// Selects a session kind: the timer is Idle afterwards, with the length
    /// configured for that kind remaining.
    pub fn set_session(&mut self, session_type: SessionType, settings: &Settings)
        requires
            session_type.seconds(*settings) <= u64::MAX,
        ensures
            final(self)@ == old(self)@.with_session(session_type, *settings),
            final(self)@.state == TimerState::Idle,
            final(self)@.remaining_seconds == final(self)@.duration_seconds,
            final(self)@.wf(),
    {
        self.session_type = session_type;
        self.duration_seconds = session_type.duration_minutes(settings) * 60;
        self.remaining_seconds = self.duration_seconds;
        self.state = TimerState::Idle;
    }

    /// Moves on to a session of the given kind, as the queue does: the timer
    /// is Idle afterwards, with the length configured for that kind remaining.
    pub fn switch_session(&mut self, session_type: SessionType, settings: &Settings)
        requires
            session_type.seconds(*settings) <= u64::MAX,
        ensures
            final(self)@ == old(self)@.with_session(session_type, *settings),
            final(self)@.state == TimerState::Idle,
            final(self)@.remaining_seconds == final(self)@.duration_seconds,
            final(self)@.wf(),
    {
        self.set_session(session_type, settings);
    }

    /// Takes `step` whole seconds off a Running timer, never below zero, and
    /// says whether the session finished with them. The timer is Finished
    /// then, so no later call says so again.
    pub fn advance(&mut self, step: u64) -> (finished: bool)
        ensures
            final(self)@ == old(self)@.advanced(step as nat).0,
            finished == old(self)@.advanced(step as nat).1,
            finished <==> old(self)@.state == TimerState::Running && step >= 1 && step >= old(
                self,
            )@.remaining_seconds,
            finished ==> final(self)@.state == TimerState::Finished,
            old(self)@.state == TimerState::Running ==> final(self)@.remaining_seconds == old(
                self,
            )@.left_after(step as nat),
            old(self)@.wf() ==> final(self)@.wf(),
    {
        if self.state == TimerState::Running && step >= 1 {
            if step >= self.remaining_seconds {
                self.remaining_seconds = 0;
                self.state = TimerState::Finished;
                return true;
            }
            self.remaining_seconds = self.remaining_seconds - step;
        }
        false
    }

    /// Reads the monotonic clock and takes off the whole seconds that have
    /// passed since the last tick that counted any. Says whether the session
    /// finished at this tick. Whatever the clock says, the outcome is that
    /// of [`TimerView::ticked`] for some number of seconds.
    pub fn tick(&mut self) -> (finished: bool)
        ensures
            exists|total: nat| #[trigger]
                old(self)@.ticked(total) == (final(self)@, finished),
            !(old(self)@.state == TimerState::Running && old(self)@.anchored) ==> final(self)@
                == old(self)@ && !finished,
            finished <==> old(self)@.state == TimerState::Running && final(self)@.state
                == TimerState::Finished,
            !finished ==> final(self)@.state == old(self)@.state,
            finished ==> final(self)@.remaining_seconds == 0,
            final(self)@.remaining_seconds <= old(self)@.remaining_seconds,
            final(self)@.counted_seconds >= old(self)@.counted_seconds,
            final(self)@ == (TimerView {
                state: final(self)@.state,
                remaining_seconds: final(self)@.remaining_seconds,
                counted_seconds: final(self)@.counted_seconds,
                ..old(self)@
            }),
            old(self)@.wf() ==> final(self)@.wf(),
    {
        if self.state == TimerState::Running {
            if let Some(anchor) = self.last_tick {
                let total = anchor.elapsed().as_secs();
                if total > self.counted_seconds {
                    let step = total - self.counted_seconds;
                    self.counted_seconds = total;
                    let finished = self.advance(step);
                    assert(old(self)@.ticked(total as nat) == (self@, finished));
                    return finished;
                }
                assert(old(self)@.ticked(total as nat) == (self@, false));
                return false;
            }
        }
        assert(old(self)@.ticked(0) == (self@, false));
        false
    }

    /// The share of the session that has passed, in percent, rounded down.
    pub fn progress(&self) -> (percent: u16)
        ensures
            percent == self@.progress(),
            percent <= 100,
    {
        if self.duration_seconds == 0 || self.remaining_seconds >= self.duration_seconds {
            return 0;
        }
        let passed: u128 = (self.duration_seconds - self.remaining_seconds) as u128;
        let whole: u128 = self.duration_seconds as u128;
        assert(passed * 100 / (whole as int) <= 100) by (nonlinear_arith)
            requires
                0 < passed <= whole,
        ;
        (passed * 100 / whole) as u16
    }

    /// Puts one more session at the end of the queue. What is playing is not
    /// touched.
    pub fn add_to_auto_run(&mut self, session: SessionType)
        ensures
            final(self)@ == old(self)@.queued(session),
    {
        self.auto_run.push(session);
    }

    /// The session that stands in the queue behind the one being played, if
    /// one is being played and one stands behind it.
    pub fn next_in_queue(&self) -> (next: Option<SessionType>)
        ensures
            next == self@.queued_next(),
            next is Some ==> self.auto_run_index is Some && self.auto_run_index->0 + 1
                < self.auto_run@.len() <= usize::MAX,
    {
        match self.auto_run_index {
            Some(i) => {
                if i < self.auto_run.len() && i + 1 < self.auto_run.len() {
                    Some(self.auto_run[i + 1])
                } else {
                    None
                }
            },
            None => None,
        }
    }

    /// Takes the entry at `index` out of the queue and moves the mark of the
    /// session being played with it. Does nothing if there is no such entry.
    pub fn remove_from_auto_run(&mut self, index: usize)
        ensures
            final(self)@ == old(self)@.dequeued(index as nat),
            index >= old(self)@.auto_run.len() ==> final(self)@ == old(self)@,
            index < old(self)@.auto_run.len() ==> match old(self)@.auto_run_index {
                Some(i) => final(self)@.auto_run_index == if i == index {
                    None
                } else if i > index {
                    Some((i - 1) as nat)
                } else {
                    Some(i)
                },
                None => final(self)@.auto_run_index is None,
            },
    {
        if index < self.auto_run.len() {
            self.auto_run.remove(index);
            if let Some(i) = self.auto_run_index {
                if i == index {
                    self.auto_run_index = None;
                } else if i > index {
                    self.auto_run_index = Some(i - 1);
                }
            }
        }
    }
}

/// The sum of a series of steps.
pub open spec fn sum_of(steps: Seq<nat>) -> nat
    decreases steps.len(),
{
    if steps.len() == 0 {
        0
    } else {
        sum_of(steps.drop_last()) + steps.last()
    }
}

/// The latest of a series of clock readings; `floor` if none is later.
pub open spec fn latest_of(readings: Seq<nat>, floor: nat) -> nat
    decreases readings.len(),
{
    if readings.len() == 0 {
        floor
    } else if readings.last() > latest_of(readings.drop_last(), floor) {
        readings.last()
    } else {
        latest_of(readings.drop_last(), floor)
    }
}

impl TimerView {
    /// The timer after a series of steps of whole seconds, one after the
    /// other, and the number of steps at which the session was reported
    /// finished.
    pub open spec fn advanced_through(self, steps: Seq<nat>) -> (TimerView, nat)
        decreases steps.len(),
    {
        if steps.len() == 0 {
            (self, 0)
        } else {
            let (before, reports) = self.advanced_through(steps.drop_last());
            let (after, finished) = before.advanced(steps.last());
            (
                after,
                if finished {
                    reports + 1
                } else {
                    reports
                },
            )
        }
    }

    /// The timer after a series of ticks, each with the whole seconds that
    /// the clock showed at it, and the number of ticks at which the session
    /// was reported finished.
    pub open spec fn ticked_through(self, readings: Seq<nat>) -> (TimerView, nat)
        decreases readings.len(),
    {
        if readings.len() == 0 {
            (self, 0)
        } else {
            let (before, reports) = self.ticked_through(readings.drop_last());
            let (after, finished) = before.ticked(readings.last());
            (
                after,
                if finished {
                    reports + 1
                } else {
                    reports
                },
            )
        }
    }
}

/// However the running time is cut into steps, a Running timer loses
/// exactly the seconds that have passed in all, and never goes below zero.
/// The session is reported finished at most once: once if a second or more
/// has passed and the time is used up, and the timer is Finished then;
/// never otherwise, and the timer still runs. Nothing else of the timer
/// changes.
pub proof fn lemma_countdown(timer: TimerView, steps: Seq<nat>)
    requires
        timer.state == TimerState::Running,
    ensures
        ({
            let (after, reports) = timer.advanced_through(steps);
            let used_up = sum_of(steps) >= 1 && sum_of(steps) >= timer.remaining_seconds;
            &&& after.remaining_seconds == timer.left_after(sum_of(steps))
            &&& reports == if used_up {
                1nat
            } else {
                0nat
            }
            &&& after.state == if used_up {
                TimerState::Finished
            } else {
                TimerState::Running
            }
            &&& after == TimerView {
                state: after.state,
                remaining_seconds: after.remaining_seconds,
                ..timer
            }
        }),
    decreases steps.len(),
{
    if steps.len() > 0 {
        lemma_countdown(timer, steps.drop_last());
    }
}

/// However irregular the ticks, a Running timer that measures from a clock
/// reading loses exactly the whole seconds by which the latest reading lies
/// past those it had counted, and never goes below zero. The session is
/// reported finished at most once: once if the time is used up with that,
/// never otherwise.
pub proof fn lemma_ticks(timer: TimerView, readings: Seq<nat>)
    requires
        timer.state == TimerState::Running,
        timer.anchored,
    ensures
        ({
            let (after, reports) = timer.ticked_through(readings);
            let passed = (latest_of(readings, timer.counted_seconds)
                - timer.counted_seconds) as nat;
            let used_up = passed >= 1 && passed >= timer.remaining_seconds;
            &&& latest_of(readings, timer.counted_seconds) >= timer.counted_seconds
            &&& after.remaining_seconds == timer.left_after(passed)
            &&& reports == if used_up {
                1nat
            } else {
                0nat
            }
            &&& after.state == if used_up {
                TimerState::Finished
            } else {
                TimerState::Running
            }
            &&& !used_up ==> after.counted_seconds == latest_of(readings, timer.counted_seconds)
            &&& after == TimerView {
                state: after.state,
                remaining_seconds: after.remaining_seconds,
                counted_seconds: after.counted_seconds,
                ..timer
            }
        }),
    decreases readings.len(),
{
    if readings.len() > 0 {
        lemma_ticks(timer, readings.drop_last());
    }
}

/// A timer that is not Running keeps its remaining time and reports
/// nothing, whatever time passes.
pub proof fn lemma_only_running_counts(timer: TimerView, step: nat, total: nat)
    requires
        timer.state != TimerState::Running,
    ensures
        timer.advanced(step) == (timer, false),
        timer.ticked(total) == (timer, false),
{
}

/// Taking an entry out of the queue moves the mark of the session being
/// played with it: the mark is cleared if it stood on the entry, goes down
/// by one if it stood behind it, and stays if it stood before it. A mark
/// that stood on an entry still stands on the same session afterwards.
pub proof fn lemma_dequeue_keeps_mark(timer: TimerView, index: nat, mark: nat)
    requires
        index < timer.auto_run.len(),
        timer.auto_run_index == Some(mark),
    ensures
        timer.dequeued(index).auto_run.len() == timer.auto_run.len() - 1,
        mark == index ==> timer.dequeued(index).auto_run_index is None,
        mark > index ==> timer.dequeued(index).auto_run_index == Some((mark - 1) as nat),
        mark < index ==> timer.dequeued(index).auto_run_index == Some(mark),
        mark != index && mark < timer.auto_run.len() ==> timer.dequeued(
            index,
        ).auto_run[timer.dequeued(index).auto_run_index->0 as int] == timer.auto_run[mark as int],
{
}

} // verus!
