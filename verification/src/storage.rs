//! The settings, the statistics ledger and the snapshot that is kept between runs.

use vstd::prelude::*;
use crate::clock::{Date, Timestamp};
use crate::daily::{
    all_counts_below,
    all_minutes_within,
    add_count,
    add_minutes,
    copy_list,
    count_of,
    count_on,
    counts_below,
    find_date,
    lemma_count_of_below,
    lemma_entry_found,
    lemma_minutes_of_within,
    lemma_with_count,
    lemma_with_minutes,
    minutes_of,
    minutes_on,
    minutes_within,
    one_entry_per_date,
    with_count,
    with_minutes,
};
use crate::garden::CompletedPlant;
use crate::theme::ThemeVariant;
use crate::timer::SessionType;

verus! {

/// Shortest and longest session that can be configured, in minutes.
pub const MIN_MINUTES: u64 = 1;

pub const MAX_MINUTES: u64 = 60;

/// The number of sessions that the session log keeps.
pub const SESSION_LOG_CAPACITY: usize = 100;

/// One finished session, as the session log keeps it.
#[derive(Debug, Clone, Copy, PartialEq, Eq, Structural)]
pub struct SessionLog {
    pub session_type: SessionType,
    pub duration: u64,
    pub end_time: Timestamp,
}

/// The configured session lengths, in minutes, and the colour theme.
#[derive(Debug, Clone, Copy, PartialEq, Eq, Structural)]
pub struct Settings {
    pub focus_duration: u64,
    pub short_break_duration: u64,
    pub long_break_duration: u64,
    pub theme: ThemeVariant,
}

impl Settings {
    /// Every session length lies between one minute and an hour.
    pub open spec fn valid(self) -> bool {
        &&& MIN_MINUTES <= self.focus_duration <= MAX_MINUTES
        &&& MIN_MINUTES <= self.short_break_duration <= MAX_MINUTES
        &&& MIN_MINUTES <= self.long_break_duration <= MAX_MINUTES
    }

    /// Every session length can be counted in seconds.
    pub open spec fn fits(self) -> bool {
        &&& self.focus_duration * 60 <= u64::MAX
        &&& self.short_break_duration * 60 <= u64::MAX
        &&& self.long_break_duration * 60 <= u64::MAX
    }

    /// The settings of a first run.
    pub open spec fn initial() -> Settings {
        Settings {
            focus_duration: 25,
            short_break_duration: 5,
            long_break_duration: 15,
            theme: ThemeVariant::System,
        }
    }

    /// Whether every session length lies between one minute and an hour.
    pub fn is_valid(&self) -> (b: bool)
        ensures
            b == self.valid(),
    {
        MIN_MINUTES <= self.focus_duration && self.focus_duration <= MAX_MINUTES && MIN_MINUTES
            <= self.short_break_duration && self.short_break_duration <= MAX_MINUTES
            && MIN_MINUTES <= self.long_break_duration && self.long_break_duration
            <= MAX_MINUTES
    }
}

impl Default for Settings {
    fn default() -> (s: Settings)
        ensures
            s == Settings::initial(),
            s.valid(),
    {
        Settings {
            focus_duration: 25,
            short_break_duration: 5,
            long_break_duration: 15,
            theme: ThemeVariant::System,
        }
    }
}

/// The ledger of finished sessions: running totals, the totals of each day,
/// the most recent sessions, and a place for the streaks of the garden,
/// which are put there only when a snapshot is taken.
#[derive(Debug, Clone)]
pub struct Statistics {
    pub total_sessions: u32,
    pub total_focus_sessions: u32,
    pub total_break_sessions: u32,
    pub total_minutes: u64,
    pub total_focus_minutes: u64,
    pub total_break_minutes: u64,
    pub completed_plants: u32,
    pub current_streak: u32,
    pub longest_streak: u32,
    pub current_streak_start_date: Option<Date>,
    pub longest_streak_end_date: Option<Date>,
    pub current_streak_dates: Vec<Date>,
    pub longest_streak_dates: Vec<Date>,
    pub session_log: Vec<SessionLog>,
    pub recent_sessions: Vec<(Date, u32)>,
    pub recent_focus_sessions: Vec<(Date, u32)>,
    pub recent_break_sessions: Vec<(Date, u32)>,
    pub recent_plants: Vec<(Date, u32)>,
    pub recent_minutes: Vec<(Date, u64)>,
    pub recent_focus_minutes: Vec<(Date, u64)>,
    pub recent_break_minutes: Vec<(Date, u64)>,
}

/// The ledger as a mathematical value.
pub struct StatisticsView {
    pub total_sessions: nat,
    pub total_focus_sessions: nat,
    pub total_break_sessions: nat,
    pub total_minutes: nat,
    pub total_focus_minutes: nat,
    pub total_break_minutes: nat,
    pub completed_plants: nat,
    pub current_streak: nat,
    pub longest_streak: nat,
    pub current_streak_start_date: Option<Date>,
    pub longest_streak_end_date: Option<Date>,
    pub current_streak_dates: Seq<Date>,
    pub longest_streak_dates: Seq<Date>,
    pub session_log: Seq<SessionLog>,
    pub recent_sessions: Seq<(Date, u32)>,
    pub recent_focus_sessions: Seq<(Date, u32)>,
    pub recent_break_sessions: Seq<(Date, u32)>,
    pub recent_plants: Seq<(Date, u32)>,
    pub recent_minutes: Seq<(Date, u64)>,
    pub recent_focus_minutes: Seq<(Date, u64)>,
    pub recent_break_minutes: Seq<(Date, u64)>,
}

impl View for Statistics {
    type V = StatisticsView;

    open spec fn view(&self) -> StatisticsView {
        StatisticsView {
            total_sessions: self.total_sessions as nat,
            total_focus_sessions: self.total_focus_sessions as nat,
            total_break_sessions: self.total_break_sessions as nat,
            total_minutes: self.total_minutes as nat,
            total_focus_minutes: self.total_focus_minutes as nat,
            total_break_minutes: self.total_break_minutes as nat,
            completed_plants: self.completed_plants as nat,
            current_streak: self.current_streak as nat,
            longest_streak: self.longest_streak as nat,
            current_streak_start_date: self.current_streak_start_date,
            longest_streak_end_date: self.longest_streak_end_date,
            current_streak_dates: self.current_streak_dates@,
            longest_streak_dates: self.longest_streak_dates@,
            session_log: self.session_log@,
            recent_sessions: self.recent_sessions@,
            recent_focus_sessions: self.recent_focus_sessions@,
            recent_break_sessions: self.recent_break_sessions@,
            recent_plants: self.recent_plants@,
            recent_minutes: self.recent_minutes@,
            recent_focus_minutes: self.recent_focus_minutes@,
            recent_break_minutes: self.recent_break_minutes@,
        }
    }
}

impl StatisticsView {
    /// The session log is within its capacity, and no list of daily totals
    /// has two entries for one date.
    pub open spec fn wf(self) -> bool {
        &&& self.session_log.len() <= SESSION_LOG_CAPACITY
        &&& one_entry_per_date(self.recent_sessions)
        &&& one_entry_per_date(self.recent_focus_sessions)
        &&& one_entry_per_date(self.recent_break_sessions)
        &&& one_entry_per_date(self.recent_plants)
        &&& one_entry_per_date(self.recent_minutes)
        &&& one_entry_per_date(self.recent_focus_minutes)
        &&& one_entry_per_date(self.recent_break_minutes)
    }

    /// The ledger of a first run: nothing counted, nothing listed.
    pub open spec fn initial() -> StatisticsView {
        StatisticsView {
            total_sessions: 0,
            total_focus_sessions: 0,
            total_break_sessions: 0,
            total_minutes: 0,
            total_focus_minutes: 0,
            total_break_minutes: 0,
            completed_plants: 0,
            current_streak: 0,
            longest_streak: 0,
            current_streak_start_date: None,
            longest_streak_end_date: None,
            current_streak_dates: Seq::empty(),
            longest_streak_dates: Seq::empty(),
            session_log: Seq::empty(),
            recent_sessions: Seq::empty(),
            recent_focus_sessions: Seq::empty(),
            recent_break_sessions: Seq::empty(),
            recent_plants: Seq::empty(),
            recent_minutes: Seq::empty(),
            recent_focus_minutes: Seq::empty(),
            recent_break_minutes: Seq::empty(),
        }
    }

    /// Whether the counters that a session of this kind and length on this
    /// day adds to can take it.
    pub open spec fn can_record(self, session_type: SessionType, minutes: nat, today: Date) -> bool {
        &&& self.total_sessions + 1 <= u32::MAX
        &&& self.total_minutes + minutes <= u64::MAX
        &&& count_of(self.recent_sessions, today) + 1 <= u32::MAX
        &&& minutes_of(self.recent_minutes, today) + minutes <= u64::MAX
        &&& if session_type == SessionType::Focus {
            &&& self.total_focus_sessions + 1 <= u32::MAX
            &&& self.total_focus_minutes + minutes <= u64::MAX
            &&& count_of(self.recent_focus_sessions, today) + 1 <= u32::MAX
            &&& minutes_of(self.recent_focus_minutes, today) + minutes <= u64::MAX
        } else {
            &&& self.total_break_sessions + 1 <= u32::MAX
            &&& self.total_break_minutes + minutes <= u64::MAX
            &&& count_of(self.recent_break_sessions, today) + 1 <= u32::MAX
            &&& minutes_of(self.recent_break_minutes, today) + minutes <= u64::MAX
        }
    }

    /// The ledger after a finished session of the given kind and length on
    /// the given day: it counts in the totals and in the totals of that
    /// day, and beside that in those of focus sessions if it is one, in
    /// those of breaks if it is a break of either kind.
    pub open spec fn recorded(self, session_type: SessionType, minutes: nat, today: Date) -> StatisticsView {
        let all = StatisticsView {
            total_sessions: self.total_sessions + 1,
            total_minutes: self.total_minutes + minutes,
            recent_sessions: with_count(self.recent_sessions, today, 1),
            recent_minutes: with_minutes(self.recent_minutes, today, minutes),
            ..self
        };
        if session_type == SessionType::Focus {
            StatisticsView {
                total_focus_sessions: self.total_focus_sessions + 1,
                total_focus_minutes: self.total_focus_minutes + minutes,
                recent_focus_sessions: with_count(self.recent_focus_sessions, today, 1),
                recent_focus_minutes: with_minutes(self.recent_focus_minutes, today, minutes),
                ..all
            }
        } else {
            StatisticsView {
                total_break_sessions: self.total_break_sessions + 1,
                total_break_minutes: self.total_break_minutes + minutes,
                recent_break_sessions: with_count(self.recent_break_sessions, today, 1),
                recent_break_minutes: with_minutes(self.recent_break_minutes, today, minutes),
                ..all
            }
        }
    }

    /// Whether the counters of grown plants can take one more on this day.
    pub open spec fn can_record_plant(self, today: Date) -> bool {
        &&& self.completed_plants + 1 <= u32::MAX
        &&& count_of(self.recent_plants, today) + 1 <= u32::MAX
    }

    /// The ledger after a plant was grown to the end on the given day.
    pub open spec fn plant_recorded(self, today: Date) -> StatisticsView {
        StatisticsView {
            completed_plants: self.completed_plants + 1,
            recent_plants: with_count(self.recent_plants, today, 1),
            ..self
        }
    }

    /// The ledger with one more session at the end of the session log. If
    /// the log is then over its capacity, its oldest entry leaves.
    pub open spec fn logged(self, entry: SessionLog) -> StatisticsView {
        let log = self.session_log.push(entry);
        StatisticsView {
            session_log: if log.len() > SESSION_LOG_CAPACITY {
                log.drop_first()
            } else {
                log
            },
            ..self
        }
    }
}

impl Default for Statistics {
    fn default() -> (s: Statistics)
        ensures
            s@ == StatisticsView::initial(),
            s@.wf(),
    {
        Statistics {
            total_sessions: 0,
            total_focus_sessions: 0,
            total_break_sessions: 0,
            total_minutes: 0,
            total_focus_minutes: 0,
            total_break_minutes: 0,
            completed_plants: 0,
            current_streak: 0,
            longest_streak: 0,
            current_streak_start_date: None,
            longest_streak_end_date: None,
            current_streak_dates: Vec::new(),
            longest_streak_dates: Vec::new(),
            session_log: Vec::new(),
            recent_sessions: Vec::new(),
            recent_focus_sessions: Vec::new(),
            recent_break_sessions: Vec::new(),
            recent_plants: Vec::new(),
            recent_minutes: Vec::new(),
            recent_focus_minutes: Vec::new(),
            recent_break_minutes: Vec::new(),
        }
    }
}

impl Statistics {
    /// A copy of the ledger.
    pub fn duplicate(&self) -> (copy: Statistics)
        ensures
            copy@ == self@,
    {
        Statistics {
            total_sessions: self.total_sessions,
            total_focus_sessions: self.total_focus_sessions,
            total_break_sessions: self.total_break_sessions,
            total_minutes: self.total_minutes,
            total_focus_minutes: self.total_focus_minutes,
            total_break_minutes: self.total_break_minutes,
            completed_plants: self.completed_plants,
            current_streak: self.current_streak,
            longest_streak: self.longest_streak,
            current_streak_start_date: self.current_streak_start_date,
            longest_streak_end_date: self.longest_streak_end_date,
            current_streak_dates: copy_list(&self.current_streak_dates),
            longest_streak_dates: copy_list(&self.longest_streak_dates),
            session_log: copy_list(&self.session_log),
            recent_sessions: copy_list(&self.recent_sessions),
            recent_focus_sessions: copy_list(&self.recent_focus_sessions),
            recent_break_sessions: copy_list(&self.recent_break_sessions),
            recent_plants: copy_list(&self.recent_plants),
            recent_minutes: copy_list(&self.recent_minutes),
            recent_focus_minutes: copy_list(&self.recent_focus_minutes),
            recent_break_minutes: copy_list(&self.recent_break_minutes),
        }
    }

    /// Whether the counters that a session of this kind and length on this
    /// day adds to can take it.
    pub fn has_room_for(&self, session_type: SessionType, minutes: u64, today: Date) -> (b: bool)
        ensures
            b == self@.can_record(session_type, minutes as nat, today),
    {
        let all = self.total_sessions < u32::MAX && self.total_minutes <= u64::MAX - minutes
            && count_on(&self.recent_sessions, today) < u32::MAX && minutes_on(
            &self.recent_minutes,
            today,
        ) <= u64::MAX - minutes;
        if session_type == SessionType::Focus {
            all && self.total_focus_sessions < u32::MAX && self.total_focus_minutes <= u64::MAX
                - minutes && count_on(&self.recent_focus_sessions, today) < u32::MAX
                && minutes_on(&self.recent_focus_minutes, today) <= u64::MAX - minutes
        } else {
            all && self.total_break_sessions < u32::MAX && self.total_break_minutes <= u64::MAX
                - minutes && count_on(&self.recent_break_sessions, today) < u32::MAX
                && minutes_on(&self.recent_break_minutes, today) <= u64::MAX - minutes
        }
    }

    /// Whether the counters of grown plants can take one more on this day.
    pub fn has_room_for_plant(&self, today: Date) -> (b: bool)
        ensures
            b == self@.can_record_plant(today),
    {
        self.completed_plants < u32::MAX && count_on(&self.recent_plants, today) < u32::MAX
    }

    /// Whether the days with sessions can still be counted in a streak once
    /// a session is booked on `today`.
    pub fn can_take_day(&self, today: Date) -> (b: bool)
        ensures
            b == (with_count(self@.recent_sessions, today, 1).len() <= u32::MAX),
    {
        let place = find_date(&self.recent_sessions, today);
        if place < self.recent_sessions.len() {
            self.recent_sessions.len() <= 0xffff_ffff
        } else {
            self.recent_sessions.len() < 0xffff_ffff
        }
    }

    /// Books one finished session of the given kind and length on the given
    /// day.
    pub fn record_session(&mut self, session_type: SessionType, minutes: u64, today: Date)
        requires
            old(self)@.can_record(session_type, minutes as nat, today),
        ensures
            final(self)@ == old(self)@.recorded(session_type, minutes as nat, today),
            old(self)@.wf() ==> final(self)@.wf(),
    {
        proof {
            lemma_with_count(self.recent_sessions@, today, 1, today);
            lemma_with_minutes(self.recent_minutes@, today, minutes as nat, today);
            if session_type == SessionType::Focus {
                lemma_with_count(self.recent_focus_sessions@, today, 1, today);
                lemma_with_minutes(self.recent_focus_minutes@, today, minutes as nat, today);
            } else {
                lemma_with_count(self.recent_break_sessions@, today, 1, today);
                lemma_with_minutes(self.recent_break_minutes@, today, minutes as nat, today);
            }
        }
        self.total_sessions = self.total_sessions + 1;
        self.total_minutes = self.total_minutes + minutes;
        add_count(&mut self.recent_sessions, today, 1);
        add_minutes(&mut self.recent_minutes, today, minutes);
        match session_type {
            SessionType::Focus => {
                self.total_focus_sessions = self.total_focus_sessions + 1;
                self.total_focus_minutes = self.total_focus_minutes + minutes;
                add_count(&mut self.recent_focus_sessions, today, 1);
                add_minutes(&mut self.recent_focus_minutes, today, minutes);
            },
            _ => {
                self.total_break_sessions = self.total_break_sessions + 1;
                self.total_break_minutes = self.total_break_minutes + minutes;
                add_count(&mut self.recent_break_sessions, today, 1);
                add_minutes(&mut self.recent_break_minutes, today, minutes);
            },
        }
    }

    /// Books one plant grown to the end on the given day.
    pub fn record_plant(&mut self, today: Date)
        requires
            old(self)@.can_record_plant(today),
        ensures
            final(self)@ == old(self)@.plant_recorded(today),
            old(self)@.wf() ==> final(self)@.wf(),
    {
        proof {
            lemma_with_count(self.recent_plants@, today, 1, today);
        }
        self.completed_plants = self.completed_plants + 1;
        add_count(&mut self.recent_plants, today, 1);
    }

    /// Puts a session at the end of the session log. If the log is then over
    /// its capacity, its oldest entry leaves; the others keep their order.
    pub fn log_session(&mut self, entry: SessionLog)
        ensures
            final(self)@ == old(self)@.logged(entry),
            old(self)@.session_log.len() <= SESSION_LOG_CAPACITY ==> final(self)@.session_log.len()
                <= SESSION_LOG_CAPACITY,
            old(self)@.wf() ==> final(self)@.wf(),
    {
        self.session_log.push(entry);
        if self.session_log.len() > SESSION_LOG_CAPACITY {
            self.session_log.remove(0);
            assert(self.session_log@ == old(self).session_log@.push(entry).drop_first());
        }
    }
}

/// The session log is a queue of bounded length: a log within its capacity
/// stays within it, the new session is its last entry, and the sessions
/// before it keep their order. From a full log exactly the oldest entry
/// leaves.
pub proof fn lemma_log_is_bounded_queue(stats: StatisticsView, entry: SessionLog)
    requires
        stats.session_log.len() <= SESSION_LOG_CAPACITY,
    ensures
        stats.logged(entry).session_log.len() <= SESSION_LOG_CAPACITY,
        stats.logged(entry).session_log.last() == entry,
        stats.session_log.len() < SESSION_LOG_CAPACITY ==> stats.logged(entry).session_log
            == stats.session_log.push(entry),
        stats.session_log.len() == SESSION_LOG_CAPACITY ==> stats.logged(entry).session_log
            == stats.session_log.subrange(1, SESSION_LOG_CAPACITY as int).push(entry),
{
    let log = stats.session_log.push(entry);
    if stats.session_log.len() == SESSION_LOG_CAPACITY {
        assert(log.drop_first() == stats.session_log.subrange(
            1,
            SESSION_LOG_CAPACITY as int,
        ).push(entry));
    }
}


/// The snapshot that is kept between runs: the plant in progress, the
/// settings, the ledger with the streaks in it, the plants grown so far and
/// the queue of sessions.
#[derive(Debug, Clone)]
pub struct Data {
    pub current_plant_stage: u32,
    pub growth_points: u32,
    pub settings: Settings,
    pub statistics: Statistics,
    pub completed_plants: Vec<CompletedPlant>,
    pub auto_run: Vec<SessionType>,
    pub auto_run_index: Option<usize>,
}

/// The snapshot as a mathematical value.
pub struct DataView {
    pub current_plant_stage: nat,
    pub growth_points: nat,
    pub settings: Settings,
    pub statistics: StatisticsView,
    pub completed_plants: Seq<CompletedPlant>,
    pub auto_run: Seq<SessionType>,
    pub auto_run_index: Option<nat>,
}

impl View for Data {
    type V = DataView;

    open spec fn view(&self) -> DataView {
        DataView {
            current_plant_stage: self.current_plant_stage as nat,
            growth_points: self.growth_points as nat,
            settings: self.settings,
            statistics: self.statistics@,
            completed_plants: self.completed_plants@,
            auto_run: self.auto_run@,
            auto_run_index: match self.auto_run_index {
                Some(i) => Some(i as nat),
                None => None,
            },
        }
    }
}

impl DataView {
    /// The snapshot of a first run.
    pub open spec fn initial() -> DataView {
        DataView {
            current_plant_stage: 0,
            growth_points: 0,
            settings: Settings::initial(),
            statistics: StatisticsView::initial(),
            completed_plants: Seq::empty(),
            auto_run: Seq::empty(),
            auto_run_index: None,
        }
    }

    /// Whether work can go on from the snapshot: its session lengths lie
    /// between one minute and an hour, and the days with sessions can be
    /// counted in a streak.
    pub open spec fn usable(self) -> bool {
        &&& self.settings.valid()
        &&& self.statistics.recent_sessions.len() <= u32::MAX
    }
}

impl Default for Data {
    fn default() -> (d: Data)
        ensures
            d@ == DataView::initial(),
            d@.usable(),
    {
        Data {
            current_plant_stage: 0,
            growth_points: 0,
            settings: Settings::default(),
            statistics: Statistics::default(),
            completed_plants: Vec::new(),
            auto_run: Vec::new(),
            auto_run_index: None,
        }
    }
}

impl Data {
    /// Whether work can go on from the snapshot.
    pub fn is_usable(&self) -> (b: bool)
        ensures
            b == self@.usable(),
    {
        self.settings.is_valid() && self.statistics.recent_sessions.len() <= 0xffff_ffff
    }
}


impl StatisticsView {
    /// Whether a session of this kind and length can be booked on any day
    /// whatever, and with it a grown plant if `plant` says so: no counter
    /// that it adds to stands at its limit, on no day, and there is room
    /// for one more day with sessions.
    pub open spec fn roomy(self, kind: SessionType, minutes: nat, plant: bool) -> bool {
        &&& self.total_sessions < u32::MAX
        &&& self.total_minutes + minutes <= u64::MAX
        &&& counts_below(self.recent_sessions, u32::MAX as nat)
        &&& minutes_within(self.recent_minutes, (u64::MAX - minutes) as nat)
        &&& self.recent_sessions.len() < u32::MAX
        &&& if kind == SessionType::Focus {
            &&& self.total_focus_sessions < u32::MAX
            &&& self.total_focus_minutes + minutes <= u64::MAX
            &&& counts_below(self.recent_focus_sessions, u32::MAX as nat)
            &&& minutes_within(self.recent_focus_minutes, (u64::MAX - minutes) as nat)
        } else {
            &&& self.total_break_sessions < u32::MAX
            &&& self.total_break_minutes + minutes <= u64::MAX
            &&& counts_below(self.recent_break_sessions, u32::MAX as nat)
            &&& minutes_within(self.recent_break_minutes, (u64::MAX - minutes) as nat)
        }
        &&& plant ==> {
            &&& self.completed_plants < u32::MAX
            &&& counts_below(self.recent_plants, u32::MAX as nat)
        }
    }
}

/// A roomy ledger can take the session, and the plant, on any day.
pub proof fn lemma_roomy(
    stats: StatisticsView,
    kind: SessionType,
    minutes: nat,
    plant: bool,
    today: Date,
)
    requires
        stats.roomy(kind, minutes, plant),
    ensures
        stats.can_record(kind, minutes, today),
        plant ==> stats.can_record_plant(today),
        with_count(stats.recent_sessions, today, 1).len() <= u32::MAX,
{
    lemma_count_of_below(stats.recent_sessions, u32::MAX as nat, today);
    lemma_minutes_of_within(stats.recent_minutes, (u64::MAX - minutes) as nat, today);
    if kind == SessionType::Focus {
        lemma_count_of_below(stats.recent_focus_sessions, u32::MAX as nat, today);
        lemma_minutes_of_within(stats.recent_focus_minutes, (u64::MAX - minutes) as nat, today);
    } else {
        lemma_count_of_below(stats.recent_break_sessions, u32::MAX as nat, today);
        lemma_minutes_of_within(stats.recent_break_minutes, (u64::MAX - minutes) as nat, today);
    }
    if plant {
        lemma_count_of_below(stats.recent_plants, u32::MAX as nat, today);
    }
    lemma_with_count(stats.recent_sessions, today, 1, today);
}

/// For a ledger in order, room in every counter is also needed: if the
/// session, and the plant, can be booked on any day, then no counter that
/// they add to stands at its limit on any day.
pub proof fn lemma_room_is_needed(
    stats: StatisticsView,
    kind: SessionType,
    minutes: nat,
    plant: bool,
)
    requires
        stats.wf(),
        minutes <= u64::MAX,
        forall|today: Date| #[trigger] stats.can_record(kind, minutes, today),
        plant ==> forall|today: Date| #[trigger] stats.can_record_plant(today),
        stats.recent_sessions.len() < u32::MAX,
    ensures
        stats.roomy(kind, minutes, plant),
{
    let witness = Date { days: 0 };
    assert(stats.can_record(kind, minutes, witness));
    lemma_counts_found(stats.recent_sessions);
    lemma_minutes_found(stats.recent_minutes);
    assert forall|i: int| 0 <= i < stats.recent_sessions.len() implies (
    #[trigger] stats.recent_sessions[i]).1 < u32::MAX by {
        assert(stats.can_record(kind, minutes, stats.recent_sessions[i].0));
    }
    assert forall|i: int| 0 <= i < stats.recent_minutes.len() implies (
    #[trigger] stats.recent_minutes[i]).1 <= u64::MAX - minutes by {
        assert(stats.can_record(kind, minutes, stats.recent_minutes[i].0));
    }
    if kind == SessionType::Focus {
        lemma_counts_found(stats.recent_focus_sessions);
        lemma_minutes_found(stats.recent_focus_minutes);
        assert forall|i: int| 0 <= i < stats.recent_focus_sessions.len() implies (
        #[trigger] stats.recent_focus_sessions[i]).1 < u32::MAX by {
            assert(stats.can_record(kind, minutes, stats.recent_focus_sessions[i].0));
        }
        assert forall|i: int| 0 <= i < stats.recent_focus_minutes.len() implies (
        #[trigger] stats.recent_focus_minutes[i]).1 <= u64::MAX - minutes by {
            assert(stats.can_record(kind, minutes, stats.recent_focus_minutes[i].0));
        }
    } else {
        lemma_counts_found(stats.recent_break_sessions);
        lemma_minutes_found(stats.recent_break_minutes);
        assert forall|i: int| 0 <= i < stats.recent_break_sessions.len() implies (
        #[trigger] stats.recent_break_sessions[i]).1 < u32::MAX by {
            assert(stats.can_record(kind, minutes, stats.recent_break_sessions[i].0));
        }
        assert forall|i: int| 0 <= i < stats.recent_break_minutes.len() implies (
        #[trigger] stats.recent_break_minutes[i]).1 <= u64::MAX - minutes by {
            assert(stats.can_record(kind, minutes, stats.recent_break_minutes[i].0));
        }
    }
    if plant {
        assert(stats.can_record_plant(witness));
        lemma_counts_found(stats.recent_plants);
        assert forall|i: int| 0 <= i < stats.recent_plants.len() implies (
        #[trigger] stats.recent_plants[i]).1 < u32::MAX by {
            assert(stats.can_record_plant(stats.recent_plants[i].0));
        }
    }
}

/// In a list with one entry per date, what is booked for the date of an
/// entry is the count of that entry.
proof fn lemma_counts_found(entries: Seq<(Date, u32)>)
    requires
        one_entry_per_date(entries),
    ensures
        forall|i: int|
            0 <= i < entries.len() ==> count_of(entries, (#[trigger] entries[i]).0)
                == entries[i].1,
{
    assert forall|i: int| 0 <= i < entries.len() implies count_of(
        entries,
        (#[trigger] entries[i]).0,
    ) == entries[i].1 by {
        lemma_entry_found(entries, i);
    }
}

/// In a list with one entry per date, what is booked for the date of an
/// entry is the number of minutes of that entry.
proof fn lemma_minutes_found(entries: Seq<(Date, u64)>)
    requires
        one_entry_per_date(entries),
    ensures
        forall|i: int|
            0 <= i < entries.len() ==> minutes_of(entries, (#[trigger] entries[i]).0)
                == entries[i].1,
{
    assert forall|i: int| 0 <= i < entries.len() implies minutes_of(
        entries,
        (#[trigger] entries[i]).0,
    ) == entries[i].1 by {
        lemma_entry_found(entries, i);
    }
}

impl Statistics {
    /// Whether a session of this kind and length can be booked on any day
    /// whatever, and with it a grown plant if `plant` says so.
    pub fn has_room(&self, kind: SessionType, minutes: u64, plant: bool) -> (b: bool)
        ensures
            b == self@.roomy(kind, minutes as nat, plant),
    {
        let most: u64 = u64::MAX - minutes;
        let all = self.total_sessions < u32::MAX && self.total_minutes <= most
            && all_counts_below(&self.recent_sessions, u32::MAX) && all_minutes_within(
            &self.recent_minutes,
            most,
        ) && self.recent_sessions.len() < 0xffff_ffff;
        let of_kind = if kind == SessionType::Focus {
            self.total_focus_sessions < u32::MAX && self.total_focus_minutes <= most
                && all_counts_below(&self.recent_focus_sessions, u32::MAX)
                && all_minutes_within(&self.recent_focus_minutes, most)
        } else {
            self.total_break_sessions < u32::MAX && self.total_break_minutes <= most
                && all_counts_below(&self.recent_break_sessions, u32::MAX)
                && all_minutes_within(&self.recent_break_minutes, most)
        };
        let of_plant = !plant || (self.completed_plants < u32::MAX && all_counts_below(
            &self.recent_plants,
            u32::MAX,
        ));
        all && of_kind && of_plant
    }
}

} // verus!
