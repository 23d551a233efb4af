//! The coordinator: it owns the timer, the plant, the garden, the settings
//! and the ledger, and takes each finished session and each action of the
//! user through them.

use vstd::prelude::*;
use crate::clock::{read_clock, Date, Now, Timestamp};
use crate::garden::{
    active_days,
    alive,
    lemma_active_days,
    lemma_no_sessions_no_streaks,
    lemma_current_streak,
    lemma_current_within_longest,
    Garden,
    GardenView,
};
use crate::input::InputAction;
use crate::plant::{Plant, PlantStage, MAX_GROWTH};
use crate::daily::{
    copy_list,
    lemma_position_of,
    lemma_with_count,
    lemma_with_minutes,
    position_of,
    with_count,
};
use crate::storage::{
    lemma_log_is_bounded_queue,
    lemma_room_is_needed,
    lemma_roomy,
    Data,
    DataView,
    SessionLog,
    Settings,
    Statistics,
    StatisticsView,
    MAX_MINUTES,
    MIN_MINUTES,
};
use crate::theme::Theme;
use crate::timer::{SessionType, Timer, TimerState, TimerView};

verus! {

/// The pages of the program.
#[derive(Debug, Clone, Copy, PartialEq, Eq, Structural)]
pub enum Tab {
    Timer,
    Plant,
    Stats,
    Settings,
}

/// The half of a page that takes the keys.
#[derive(Debug, Clone, Copy, PartialEq, Eq, Structural)]
pub enum Focus {
    Left,
    Right,
}

/// The place of the last session kind, of the last setting and of the last
/// statistic in their lists.
pub const LAST_SESSION_CHOICE: usize = 2;

pub const LAST_SETTING: usize = 3;

pub const LAST_STAT: usize = 8;

/// The state of the program: its parts, and what is selected on its pages.
#[derive(Debug)]
pub struct App {
    pub tab: Tab,
    pub timer: Timer,
    pub plant: Plant,
    pub garden: Garden,
    pub settings: Settings,
    pub statistics: Statistics,
    pub theme: Theme,
    pub timer_selected_session: usize,
    pub timer_selected_auto: usize,
    pub settings_selected: usize,
    pub stats_selected: usize,
    pub focus: Focus,
    pub should_quit: bool,
}

/// The state of the program as a mathematical value.
pub struct AppView {
    pub tab: Tab,
    pub timer: TimerView,
    pub plant: Plant,
    pub garden: GardenView,
    pub settings: Settings,
    pub statistics: StatisticsView,
    pub theme: Theme,
    pub timer_selected_session: nat,
    pub timer_selected_auto: nat,
    pub settings_selected: nat,
    pub stats_selected: nat,
    pub focus: Focus,
    pub should_quit: bool,
}

impl View for App {
    type V = AppView;

    open spec fn view(&self) -> AppView {
        AppView {
            tab: self.tab,
            timer: self.timer@,
            plant: self.plant,
            garden: self.garden@,
            settings: self.settings,
            statistics: self.statistics@,
            theme: self.theme,
            timer_selected_session: self.timer_selected_session as nat,
            timer_selected_auto: self.timer_selected_auto as nat,
            settings_selected: self.settings_selected as nat,
            stats_selected: self.stats_selected as nat,
            focus: self.focus,
            should_quit: self.should_quit,
        }
    }
}

/// The session kind at a place of the list of kinds, if the list has it.
pub open spec fn session_choice(place: nat) -> Option<SessionType> {
    if place == 0 {
        Some(SessionType::Focus)
    } else if place == 1 {
        Some(SessionType::ShortBreak)
    } else if place == 2 {
        Some(SessionType::LongBreak)
    } else {
        None
    }
}

/// A session length moved by `delta` minutes and held between one minute
/// and an hour.
pub open spec fn clamped(minutes: nat, delta: int) -> nat {
    if minutes + delta < MIN_MINUTES {
        MIN_MINUTES as nat
    } else if minutes + delta > MAX_MINUTES {
        MAX_MINUTES as nat
    } else {
        (minutes + delta) as nat
    }
}

/// The session kind at a place of the list of kinds, if the list has it.
pub fn session_at(place: usize) -> (kind: Option<SessionType>)
    ensures
        kind == session_choice(place as nat),
        kind is Some <==> place <= LAST_SESSION_CHOICE,
{
    if place == 0 {
        Some(SessionType::Focus)
    } else if place == 1 {
        Some(SessionType::ShortBreak)
    } else if place == 2 {
        Some(SessionType::LongBreak)
    } else {
        None
    }
}

/// A session length moved by `delta` minutes and held between one minute
/// and an hour.
pub fn clamp_minutes(minutes: u64, delta: i64) -> (m: u64)
    ensures
        m == clamped(minutes as nat, delta as int),
        MIN_MINUTES <= m <= MAX_MINUTES,
{
    let moved: i128 = minutes as i128 + delta as i128;
    if moved < 1 {
        1
    } else if moved > 60 {
        60
    } else {
        moved as u64
    }
}

impl AppView {
    /// The settings are in range and every selection stands on an entry of
    /// its list.
    pub open spec fn wf(self) -> bool {
        &&& self.settings.valid()
        &&& self.timer_selected_session <= LAST_SESSION_CHOICE
        &&& self.settings_selected <= LAST_SETTING
        &&& self.stats_selected <= LAST_STAT
        &&& self.theme == Theme::palette(self.settings.theme)
    }

    /// The program as it starts from a snapshot on the day `today`. A
    /// snapshot that is not usable is dropped for that of a first run. The
    /// timer is idle on a Focus session with the queue of the snapshot, the
    /// plant is the one that the growth points give, and the streaks are
    /// computed afresh.
    pub open spec fn restored(data: DataView, today: Date) -> AppView {
        let data = if data.usable() {
            data
        } else {
            DataView::initial()
        };
        AppView {
            tab: Tab::Timer,
            timer: TimerView {
                auto_run: data.auto_run,
                auto_run_index: data.auto_run_index,
                ..TimerView::fresh(data.settings)
            },
            plant: Plant::with_points(data.growth_points),
            garden: (GardenView {
                completed_plants: data.completed_plants,
                ..GardenView::empty()
            }).with_streaks(data.statistics.recent_sessions, today),
            settings: data.settings,
            statistics: data.statistics,
            theme: Theme::palette(data.settings.theme),
            timer_selected_session: 0,
            timer_selected_auto: 0,
            settings_selected: 0,
            stats_selected: 0,
            focus: Focus::Left,
            should_quit: false,
        }
    }

    /// The snapshot of the program: the plant, the settings, the ledger
    /// with the streaks of the garden put into it, the plants of the garden
    /// and the queue.
    pub open spec fn snapshot(self) -> DataView {
        DataView {
            current_plant_stage: self.plant.stage.number(),
            growth_points: self.plant.growth_points as nat,
            settings: self.settings,
            statistics: StatisticsView {
                current_streak: self.garden.current_streak,
                longest_streak: self.garden.longest_streak,
                current_streak_start_date: self.garden.current_streak_start_date,
                longest_streak_end_date: self.garden.longest_streak_end_date,
                current_streak_dates: self.garden.current_streak_dates,
                longest_streak_dates: self.garden.longest_streak_dates,
                ..self.statistics
            },
            completed_plants: self.garden.completed_plants,
            auto_run: self.timer.auto_run,
            auto_run_index: self.timer.auto_run_index,
        }
    }

    /// The length in minutes of the session that the timer is set to.
    pub open spec fn session_minutes(self) -> nat {
        self.timer.session_type.minutes(self.settings)
    }

    /// Whether a session that finishes on `today` can be booked: the
    /// counters it adds to can take it, the days with sessions can still be
    /// counted in a streak, and the next session of the queue, if one is to
    /// follow, has a length that can be counted in seconds.
    pub open spec fn can_complete(self, today: Date) -> bool {
        &&& self.statistics.can_record(self.timer.session_type, self.session_minutes(), today)
        &&& self.plant.grown().complete() ==> self.statistics.can_record_plant(today)
        &&& with_count(self.statistics.recent_sessions, today, 1).len() <= u32::MAX
        &&& match self.timer.queued_next() {
            Some(next) => next.seconds(self.settings) <= u64::MAX,
            None => true,
        }
    }

    /// Whether a session that finishes can be booked on any day whatever:
    /// the ledger has room, on any day, for the session of the timer and
    /// for the plant if this session completes it, and the next session of
    /// the queue, if one is to follow, has a length that can be counted in
    /// seconds.
    pub open spec fn can_complete_any_day(self) -> bool {
        &&& self.statistics.roomy(
            self.timer.session_type,
            self.session_minutes(),
            self.plant.grown().complete(),
        )
        &&& match self.timer.queued_next() {
            Some(next) => next.seconds(self.settings) <= u64::MAX,
            None => true,
        }
    }

    /// The program after the session of the timer has finished at `now`.
    /// In this order: the plant grows by one point; the session is booked in
    /// the ledger; a plant that is complete moves to the garden, is booked,
    /// and a new seed takes its place; the streaks are computed afresh; the
    /// session goes into the session log; and the queue moves on.
    pub open spec fn completed(self, now: Now) -> AppView {
        let kind = self.timer.session_type;
        let minutes = self.session_minutes();
        let plant = self.plant.grown();
        let booked = self.statistics.recorded(kind, minutes, now.today);
        let statistics = if plant.complete() {
            booked.plant_recorded(now.today)
        } else {
            booked
        };
        let garden = if plant.complete() {
            self.garden.with_plant(plant, now.at)
        } else {
            self.garden
        };
        AppView {
            plant: if plant.complete() {
                Plant::fresh()
            } else {
                plant
            },
            garden: garden.with_streaks(statistics.recent_sessions, now.today),
            statistics: statistics.logged(
                SessionLog { session_type: kind, duration: minutes as u64, end_time: now.at },
            ),
            timer: self.timer.auto_advanced(self.settings),
            ..self
        }
    }

    /// The program after a tick at which the monotonic clock shows `total`
    /// whole seconds since the timer's reading of it, and the wall clock
    /// shows `now`: the timer counts down, and if the session finishes with
    /// that, it is completed.
    pub open spec fn after_tick(self, total: nat, now: Now) -> AppView {
        let (timer, finished) = self.timer.ticked(total);
        let ticked = AppView { timer, ..self };
        if finished {
            ticked.completed(now)
        } else {
            ticked
        }
    }

    /// The program after the selected setting is moved by `delta`: a
    /// session length by that many minutes, held between one minute and an
    /// hour, and taken over by the timer at once if it is set to that kind
    /// of session; the theme by that many places back.
    pub open spec fn adjusted(self, delta: int) -> AppView {
        if self.settings_selected == 0 {
            self.with_minutes_of(
                SessionType::Focus,
                Settings {
                    focus_duration: clamped(self.settings.focus_duration as nat, delta) as u64,
                    ..self.settings
                },
            )
        } else if self.settings_selected == 1 {
            self.with_minutes_of(
                SessionType::ShortBreak,
                Settings {
                    short_break_duration: clamped(
                        self.settings.short_break_duration as nat,
                        delta,
                    ) as u64,
                    ..self.settings
                },
            )
        } else if self.settings_selected == 2 {
            self.with_minutes_of(
                SessionType::LongBreak,
                Settings {
                    long_break_duration: clamped(
                        self.settings.long_break_duration as nat,
                        delta,
                    ) as u64,
                    ..self.settings
                },
            )
        } else if self.settings_selected == 3 {
            let theme = self.settings.theme.stepped_back(delta);
            AppView {
                settings: Settings { theme, ..self.settings },
                theme: Theme::palette(theme),
                ..self
            }
        } else {
            self
        }
    }

    /// The program with new settings in which the length of one kind of
    /// session has changed: a timer that is set to that kind takes the new
    /// length over and is idle.
    pub open spec fn with_minutes_of(self, kind: SessionType, settings: Settings) -> AppView {
        AppView {
            settings,
            timer: if self.timer.session_type == kind {
                self.timer.with_session(kind, settings)
            } else {
                self.timer
            },
            ..self
        }
    }

    /// The program after the Up key: the selection of the page moves up by
    /// one, or the selected setting goes up.
    pub open spec fn after_up(self) -> AppView {
        match self.tab {
            Tab::Timer => if self.focus == Focus::Left {
                if self.timer_selected_session > 0 {
                    AppView {
                        timer_selected_session: (self.timer_selected_session - 1) as nat,
                        ..self
                    }
                } else {
                    self
                }
            } else if self.timer_selected_auto > 0 {
                AppView { timer_selected_auto: (self.timer_selected_auto - 1) as nat, ..self }
            } else {
                self
            },
            Tab::Settings => if self.focus == Focus::Left {
                if self.settings_selected > 0 {
                    AppView { settings_selected: (self.settings_selected - 1) as nat, ..self }
                } else {
                    self
                }
            } else {
                self.adjusted(1)
            },
            Tab::Stats => if self.stats_selected > 0 {
                AppView { stats_selected: (self.stats_selected - 1) as nat, ..self }
            } else {
                self
            },
            Tab::Plant => self,
        }
    }

    /// The program after the Down key: the selection of the page moves down
    /// by one, not past the last entry, or the selected setting goes down.
    pub open spec fn after_down(self) -> AppView {
        match self.tab {
            Tab::Timer => if self.focus == Focus::Left {
                if self.timer_selected_session < LAST_SESSION_CHOICE {
                    AppView { timer_selected_session: self.timer_selected_session + 1, ..self }
                } else {
                    self
                }
            } else if self.timer_selected_auto + 1 < self.timer.auto_run.len() {
                AppView { timer_selected_auto: self.timer_selected_auto + 1, ..self }
            } else {
                self
            },
            Tab::Settings => if self.focus == Focus::Left {
                if self.settings_selected < LAST_SETTING {
                    AppView { settings_selected: self.settings_selected + 1, ..self }
                } else {
                    self
                }
            } else {
                self.adjusted(-1)
            },
            Tab::Stats => if self.stats_selected < LAST_STAT {
                AppView { stats_selected: self.stats_selected + 1, ..self }
            } else {
                self
            },
            Tab::Plant => self,
        }
    }

    /// The kind of session that the space bar would set the timer to, if
    /// it would set it to another kind than it has: the selected kind on the
    /// left of the timer page, the kind of the selected entry of the queue
    /// anywhere else.
    pub open spec fn space_switches_to(self) -> Option<SessionType> {
        let choice = if self.tab == Tab::Timer && self.focus == Focus::Left {
            session_choice(self.timer_selected_session)
        } else if self.timer_selected_auto < self.timer.auto_run.len() {
            Some(self.timer.auto_run[self.timer_selected_auto as int])
        } else {
            None
        };
        match choice {
            Some(kind) => if kind != self.timer.session_type {
                Some(kind)
            } else {
                None
            },
            None => None,
        }
    }

    /// Whether the action can be taken: where the space bar sets the timer
    /// to another kind of session, the length of that kind can be counted in
    /// seconds. Every other action can always be taken.
    pub open spec fn can_take(self, action: InputAction) -> bool {
        action == InputAction::Space ==> match self.space_switches_to() {
            Some(kind) => kind.seconds(self.settings) <= u64::MAX,
            None => true,
        }
    }

    /// The program after the space bar. On the left of the timer page it
    /// works on the selected kind of session: a timer set to that kind
    /// starts, pauses or resumes, any other is set to it and started.
    /// Anywhere else it works on the selected entry of the queue in the
    /// same way, and a timer that it starts plays from that entry on.
    pub open spec fn after_space(self) -> AppView {
        if self.tab == Tab::Timer && self.focus == Focus::Left {
            match session_choice(self.timer_selected_session) {
                Some(kind) => AppView {
                    timer: if self.timer.session_type == kind {
                        self.timer.toggled()
                    } else {
                        self.timer.with_session(kind, self.settings).started()
                    },
                    ..self
                },
                None => self,
            }
        } else if self.timer_selected_auto < self.timer.auto_run.len() {
            let kind = self.timer.auto_run[self.timer_selected_auto as int];
            let marked = Some(self.timer_selected_auto);
            if self.timer.session_type != kind {
                AppView {
                    timer: TimerView {
                        auto_run_index: marked,
                        ..self.timer.with_session(kind, self.settings).started()
                    },
                    ..self
                }
            } else if self.timer.state == TimerState::Idle {
                AppView {
                    timer: TimerView { auto_run_index: marked, ..self.timer.started() },
                    ..self
                }
            } else {
                AppView { timer: self.timer.toggled(), ..self }
            }
        } else {
            self
        }
    }

    /// The program after the Enter key: on the left of the timer page the
    /// selected kind of session goes to the end of the queue and is
    /// selected there.
    pub open spec fn after_enter(self) -> AppView {
        if self.tab == Tab::Timer && self.focus == Focus::Left {
            match session_choice(self.timer_selected_session) {
                Some(kind) => AppView {
                    timer: self.timer.queued(kind),
                    timer_selected_auto: self.timer.auto_run.len(),
                    ..self
                },
                None => self,
            }
        } else {
            self
        }
    }

    /// The program after the Delete key: on the right of the timer page the
    /// selected entry leaves the queue, and the selection steps back if it
    /// would stand behind the last entry.
    pub open spec fn after_delete(self) -> AppView {
        if self.tab == Tab::Timer && self.focus == Focus::Right && self.timer_selected_auto
            < self.timer.auto_run.len() {
            let timer = self.timer.dequeued(self.timer_selected_auto);
            AppView {
                timer,
                timer_selected_auto: if self.timer_selected_auto >= timer.auto_run.len()
                    && self.timer_selected_auto > 0 {
                    (self.timer_selected_auto - 1) as nat
                } else {
                    self.timer_selected_auto
                },
                ..self
            }
        } else {
            self
        }
    }

    /// The program after an action of the user.
    pub open spec fn after_input(self, action: InputAction) -> AppView {
        match action {
            InputAction::Tab(n) => if n == 1 {
                AppView { tab: Tab::Timer, ..self }
            } else if n == 2 {
                AppView { tab: Tab::Plant, ..self }
            } else if n == 3 {
                AppView { tab: Tab::Stats, ..self }
            } else if n == 4 {
                AppView { tab: Tab::Settings, ..self }
            } else {
                self
            },
            InputAction::Left => AppView { focus: Focus::Left, ..self },
            InputAction::Right => AppView { focus: Focus::Right, ..self },
            InputAction::Up => self.after_up(),
            InputAction::Down => self.after_down(),
            InputAction::Space => self.after_space(),
            InputAction::Pause => self,
            InputAction::Stop => if self.tab == Tab::Timer {
                AppView { timer: self.timer.stopped(), ..self }
            } else {
                self
            },
            InputAction::Quit => AppView { should_quit: true, ..self },
            InputAction::Enter => self.after_enter(),
            InputAction::Delete => self.after_delete(),
        }
    }
}

impl App {
    /// Starts the program from a snapshot on the day `today`.
    pub fn from_data(data: Data, today: Date) -> (app: App)
        ensures
            app@ == AppView::restored(data@, today),
            app@.wf(),
    {
        let data = if data.is_usable() {
            data
        } else {
            Data::default()
        };
        let settings = data.settings;
        let mut timer = Timer::new(&settings);
        timer.auto_run = data.auto_run;
        timer.auto_run_index = data.auto_run_index;
        let plant = Plant::from_stage(data.current_plant_stage, data.growth_points);
        let mut garden = Garden::new();
        garden.completed_plants = data.completed_plants;
        garden.update_streaks_at(&data.statistics.recent_sessions, today);
        App {
            tab: Tab::Timer,
            timer,
            plant,
            garden,
            settings,
            statistics: data.statistics,
            theme: Theme::new(settings.theme),
            timer_selected_session: 0,
            timer_selected_auto: 0,
            settings_selected: 0,
            stats_selected: 0,
            focus: Focus::Left,
            should_quit: false,
        }
    }

    /// Starts the program from a snapshot, on the day that the clock gives.
    pub fn new(data: Data) -> (app: App)
        ensures
            exists|today: Date| app@ == #[trigger] AppView::restored(data@, today),
            app@.wf(),
            data@.usable() ==> {
                &&& app@.settings == data@.settings
                &&& app@.statistics == data@.statistics
                &&& app@.plant == Plant::with_points(data@.growth_points)
                &&& app@.timer == (TimerView {
                    auto_run: data@.auto_run,
                    auto_run_index: data@.auto_run_index,
                    ..TimerView::fresh(data@.settings)
                })
                &&& app@.garden.completed_plants == data@.completed_plants
            },
            !data@.usable() ==> {
                &&& app@.settings == Settings::initial()
                &&& app@.statistics == StatisticsView::initial()
                &&& app@.plant == Plant::fresh()
                &&& app@.timer == TimerView::fresh(Settings::initial())
                &&& app@.garden == GardenView::empty()
            },
    {
        let now = read_clock();
        proof {
            lemma_no_sessions_no_streaks(GardenView::empty(), now.today);
        }
        App::from_data(data, now.today)
    }

    /// The snapshot of the program, to be kept for the next run.
    pub fn save(&self) -> (data: Data)
        ensures
            data@ == self@.snapshot(),
    {
        let mut statistics = self.statistics.duplicate();
        statistics.current_streak = self.garden.current_streak;
        statistics.longest_streak = self.garden.longest_streak;
        statistics.current_streak_start_date = self.garden.current_streak_start_date;
        statistics.longest_streak_end_date = self.garden.longest_streak_end_date;
        statistics.current_streak_dates = copy_list(&self.garden.current_streak_dates);
        statistics.longest_streak_dates = copy_list(&self.garden.longest_streak_dates);
        Data {
            current_plant_stage: self.plant.stage.to_u32(),
            growth_points: self.plant.growth_points,
            settings: self.settings,
            statistics,
            completed_plants: copy_list(&self.garden.completed_plants),
            auto_run: copy_list(&self.timer.auto_run),
            auto_run_index: self.timer.auto_run_index,
        }
    }

    /// Whether a session that finishes on `today` can be booked.
    pub fn is_ready_for(&self, today: Date) -> (b: bool)
        ensures
            b == self@.can_complete(today),
    {
        let kind = self.timer.session_type;
        let minutes = kind.duration_minutes(&self.settings);
        if !self.statistics.has_room_for(kind, minutes, today) {
            return false;
        }
        let mut grown = self.plant;
        grown.add_growth();
        if grown.is_complete() && !self.statistics.has_room_for_plant(today) {
            return false;
        }
        if !self.statistics.can_take_day(today) {
            return false;
        }
        self.next_fits()
    }

    /// Whether the length of the session that the queue would play next, if
    /// there is one, can be counted in seconds.
    fn next_fits(&self) -> (b: bool)
        ensures
            b == match self@.timer.queued_next() {
                Some(next) => next.seconds(self@.settings) <= u64::MAX,
                None => true,
            },
    {
        match self.timer.next_in_queue() {
            Some(next) => next.duration_minutes(&self.settings) <= u64::MAX / 60,
            None => true,
        }
    }

    /// Whether the next tick can be taken whatever the clocks say.
    pub fn has_room(&self) -> (b: bool)
        ensures
            b == self@.can_complete_any_day(),
            b ==> forall|today: Date| #[trigger] self@.can_complete(today),
    {
        let kind = self.timer.session_type;
        let minutes = kind.duration_minutes(&self.settings);
        let mut grown = self.plant;
        grown.add_growth();
        let b = self.statistics.has_room(kind, minutes, grown.is_complete()) && self.next_fits();
        proof {
            if b {
                assert forall|today: Date| #[trigger] self@.can_complete(today) by {
                    lemma_any_day(self@, today);
                }
            }
        }
        b
    }

    /// Moves the queue on after a session has finished.
    fn advance_queue(&mut self)
        requires
            match old(self)@.timer.queued_next() {
                Some(next) => next.seconds(old(self)@.settings) <= u64::MAX,
                None => true,
            },
        ensures
            final(self)@ == (AppView {
                timer: old(self)@.timer.auto_advanced(old(self)@.settings),
                ..old(self)@
            }),
    {
        if let Some(i) = self.timer.auto_run_index {
            match self.timer.next_in_queue() {
                Some(next) => {
                    self.timer.auto_run_index = Some(i + 1);
                    self.timer.switch_session(next, &self.settings);
                    self.timer.start();
                },
                None => {
                    self.timer.auto_run_index = None;
                },
            }
        }
    }

    /// Takes the session that the timer has just finished, at `now`,
    /// through the plant, the ledger, the garden and the queue.
    pub fn complete_session(&mut self, now: Now)
        requires
            old(self)@.can_complete(now.today),
        ensures
            final(self)@ == old(self)@.completed(now),
    {
        let today = now.today;
        let kind = self.timer.session_type;
        let minutes = kind.duration_minutes(&self.settings);
        self.plant.add_growth();
        self.statistics.record_session(kind, minutes, today);
        if self.plant.is_complete() {
            self.garden.add_completed_plant_at(self.plant, now.at);
            self.plant = Plant::new();
            self.statistics.record_plant(today);
        }
        self.garden.update_streaks_at(&self.statistics.recent_sessions, today);
        self.statistics.log_session(
            SessionLog { session_type: kind, duration: minutes, end_time: now.at },
        );
        self.advance_queue();
    }

    /// Lets the timer count down by the time that has passed, and completes
    /// the session if it finishes with that. Whatever the clocks say, the
    /// outcome is that of [`AppView::after_tick`] for some readings of them.
    pub fn tick(&mut self)
        requires
            old(self)@.timer.state == TimerState::Running && old(self)@.timer.anchored
                ==> forall|today: Date| #[trigger] old(self)@.can_complete(today),
        ensures
            exists|total: nat, now: Now| final(self)@ == #[trigger] old(self)@.after_tick(total, now),
            !(old(self)@.timer.state == TimerState::Running && old(self)@.timer.anchored)
                ==> final(self)@ == old(self)@,
            final(self)@.statistics.total_sessions == old(self)@.statistics.total_sessions
                || final(self)@.statistics.total_sessions == old(self)@.statistics.total_sessions
                + 1,
            final(self)@.statistics.total_sessions == old(self)@.statistics.total_sessions ==> {
                &&& final(self)@.statistics == old(self)@.statistics
                &&& final(self)@.plant == old(self)@.plant
                &&& final(self)@.garden == old(self)@.garden
                &&& final(self)@.timer.state == old(self)@.timer.state
            },
            final(self)@.settings == old(self)@.settings,
            final(self)@.theme == old(self)@.theme,
            final(self)@.tab == old(self)@.tab,
            final(self)@.focus == old(self)@.focus,
            final(self)@.should_quit == old(self)@.should_quit,
            final(self)@.timer.auto_run == old(self)@.timer.auto_run,
    {
        let finished = self.timer.tick();
        let ghost total = choose|total: nat| #[trigger]
            old(self)@.timer.ticked(total) == (self.timer@, finished);
        if finished {
            let now = read_clock();
            assert(old(self)@.can_complete(now.today));
            self.complete_session(now);
            assert(self@ == old(self)@.after_tick(total, now));
        } else {
            let ghost now = Now { today: Date { days: 0 }, at: Timestamp { secs: 0, nanos: 0 } };
            assert(self@ == old(self)@.after_tick(total, now));
        }
    }
}

impl App {
    /// Moves the selected setting by `delta`.
    fn adjust_setting(&mut self, delta: i64)
        ensures
            final(self)@ == old(self)@.adjusted(delta as int),
            old(self)@.wf() ==> final(self)@.wf(),
    {
        if self.settings_selected == 0 {
            self.settings.focus_duration = clamp_minutes(self.settings.focus_duration, delta);
            if self.timer.session_type == SessionType::Focus {
                self.timer.set_session(SessionType::Focus, &self.settings);
            }
        } else if self.settings_selected == 1 {
            self.settings.short_break_duration = clamp_minutes(
                self.settings.short_break_duration,
                delta,
            );
            if self.timer.session_type == SessionType::ShortBreak {
                self.timer.set_session(SessionType::ShortBreak, &self.settings);
            }
        } else if self.settings_selected == 2 {
            self.settings.long_break_duration = clamp_minutes(
                self.settings.long_break_duration,
                delta,
            );
            if self.timer.session_type == SessionType::LongBreak {
                self.timer.set_session(SessionType::LongBreak, &self.settings);
            }
        } else if self.settings_selected == 3 {
            let theme = self.settings.theme.step_back(delta);
            self.settings.theme = theme;
            self.theme = Theme::new(theme);
        }
    }

    /// The Up key.
    fn handle_up(&mut self)
        ensures
            final(self)@ == old(self)@.after_up(),
            old(self)@.wf() ==> final(self)@.wf(),
    {
        match self.tab {
            Tab::Timer => {
                if self.focus == Focus::Left {
                    if self.timer_selected_session > 0 {
                        self.timer_selected_session -= 1;
                    }
                } else if self.timer_selected_auto > 0 {
                    self.timer_selected_auto -= 1;
                }
            },
            Tab::Settings => {
                if self.focus == Focus::Left {
                    if self.settings_selected > 0 {
                        self.settings_selected -= 1;
                    }
                } else {
                    self.adjust_setting(1);
                }
            },
            Tab::Stats => {
                if self.stats_selected > 0 {
                    self.stats_selected -= 1;
                }
            },
            Tab::Plant => {},
        }
    }

    /// The Down key.
    fn handle_down(&mut self)
        ensures
            final(self)@ == old(self)@.after_down(),
            old(self)@.wf() ==> final(self)@.wf(),
    {
        match self.tab {
            Tab::Timer => {
                if self.focus == Focus::Left {
                    if self.timer_selected_session < LAST_SESSION_CHOICE {
                        self.timer_selected_session += 1;
                    }
                } else if self.timer_selected_auto < self.timer.auto_run.len()
                    && self.timer_selected_auto + 1 < self.timer.auto_run.len() {
                    self.timer_selected_auto += 1;
                }
            },
            Tab::Settings => {
                if self.focus == Focus::Left {
                    if self.settings_selected < LAST_SETTING {
                        self.settings_selected += 1;
                    }
                } else {
                    self.adjust_setting(-1);
                }
            },
            Tab::Stats => {
                if self.stats_selected < LAST_STAT {
                    self.stats_selected += 1;
                }
            },
            Tab::Plant => {},
        }
    }

    /// Whether the action can be taken. With session lengths between one
    /// minute and an hour, every action can.
    pub fn can_handle(&self, action: InputAction) -> (b: bool)
        ensures
            b == self@.can_take(action),
            self@.settings.fits() ==> b,
    {
        if action != InputAction::Space {
            return true;
        }
        let choice = if self.tab == Tab::Timer && self.focus == Focus::Left {
            session_at(self.timer_selected_session)
        } else if self.timer_selected_auto < self.timer.auto_run.len() {
            Some(self.timer.auto_run[self.timer_selected_auto])
        } else {
            None
        };
        match choice {
            Some(kind) => kind == self.timer.session_type || kind.duration_minutes(
                &self.settings,
            ) <= u64::MAX / 60,
            None => true,
        }
    }

    /// Starts, pauses or resumes the timer, as its state asks.
    fn toggle_timer(&mut self)
        ensures
            final(self)@ == (AppView { timer: old(self)@.timer.toggled(), ..old(self)@ }),
    {
        match self.timer.state {
            TimerState::Idle => self.timer.start(),
            TimerState::Running => self.timer.pause(),
            TimerState::Paused => self.timer.resume(),
            TimerState::Finished => {},
        }
    }

    /// The space bar.
    fn handle_space(&mut self)
        requires
            old(self)@.can_take(InputAction::Space),
        ensures
            final(self)@ == old(self)@.after_space(),
    {
        if self.tab == Tab::Timer && self.focus == Focus::Left {
            if let Some(kind) = session_at(self.timer_selected_session) {
                if self.timer.session_type == kind {
                    self.toggle_timer();
                } else {
                    self.timer.switch_session(kind, &self.settings);
                    self.timer.start();
                }
            }
        } else if self.timer_selected_auto < self.timer.auto_run.len() {
            let kind = self.timer.auto_run[self.timer_selected_auto];
            if self.timer.session_type != kind {
                self.timer.switch_session(kind, &self.settings);
                self.timer.start();
                self.timer.auto_run_index = Some(self.timer_selected_auto);
            } else if self.timer.state == TimerState::Idle {
                self.timer.start();
                self.timer.auto_run_index = Some(self.timer_selected_auto);
            } else {
                self.toggle_timer();
            }
        }
    }

    /// Takes an action of the user. On the timer page the space bar starts,
    /// pauses and resumes, Stop stops, Enter puts the selected kind of
    /// session into the queue and Delete takes the selected entry out of
    /// it; on the settings page Up and Down on the right move the selected
    /// setting; everywhere the digits choose the page, the arrows move the
    /// selection and Quit asks for the end. Pause asks for nothing.
    pub fn handle_input(&mut self, action: InputAction)
        requires
            old(self)@.can_take(action),
        ensures
            final(self)@ == old(self)@.after_input(action),
            old(self)@.wf() ==> final(self)@.wf(),
    {
        match action {
            InputAction::Tab(n) => {
                if n == 1 {
                    self.tab = Tab::Timer;
                } else if n == 2 {
                    self.tab = Tab::Plant;
                } else if n == 3 {
                    self.tab = Tab::Stats;
                } else if n == 4 {
                    self.tab = Tab::Settings;
                }
            },
            InputAction::Left => {
                self.focus = Focus::Left;
            },
            InputAction::Right => {
                self.focus = Focus::Right;
            },
            InputAction::Up => {
                self.handle_up();
            },
            InputAction::Down => {
                self.handle_down();
            },
            InputAction::Space => {
                self.handle_space();
            },
            InputAction::Pause => {},
            InputAction::Stop => {
                if self.tab == Tab::Timer {
                    self.timer.stop();
                }
            },
            InputAction::Quit => {
                self.should_quit = true;
            },
            InputAction::Enter => {
                if self.tab == Tab::Timer && self.focus == Focus::Left {
                    if let Some(kind) = session_at(self.timer_selected_session) {
                        self.timer_selected_auto = self.timer.auto_run.len();
                        self.timer.add_to_auto_run(kind);
                    }
                }
            },
            InputAction::Delete => {
                if self.tab == Tab::Timer && self.focus == Focus::Right
                    && self.timer_selected_auto < self.timer.auto_run.len() {
                    self.timer.remove_from_auto_run(self.timer_selected_auto);
                    if self.timer_selected_auto >= self.timer.auto_run.len()
                        && self.timer_selected_auto > 0 {
                        self.timer_selected_auto -= 1;
                    }
                }
            },
        }
    }
}


/// A session that can be booked on any day can be booked on each day. For
/// a ledger in order with room for one more day, the converse holds too.
pub proof fn lemma_any_day(app: AppView, today: Date)
    ensures
        app.can_complete_any_day() ==> app.can_complete(today),
        app.statistics.wf() && app.statistics.recent_sessions.len() < u32::MAX && (forall|
            day: Date,
        | #[trigger] app.can_complete(day)) ==> app.can_complete_any_day(),
{
    let kind = app.timer.session_type;
    let minutes = app.session_minutes();
    let plant = app.plant.grown().complete();
    if app.can_complete_any_day() {
        lemma_roomy(app.statistics, kind, minutes, plant, today);
    }
    if app.statistics.wf() && app.statistics.recent_sessions.len() < u32::MAX && (forall|
        day: Date,
    | #[trigger] app.can_complete(day)) {
        assert(app.can_complete(today));
        assert forall|day: Date| #[trigger] app.statistics.can_record(kind, minutes, day) by {
            assert(app.can_complete(day));
        }
        if plant {
            assert forall|day: Date| #[trigger] app.statistics.can_record_plant(day) by {
                assert(app.can_complete(day));
            }
        }
        lemma_room_is_needed(app.statistics, kind, minutes, plant);
    }
}

/// A snapshot brings the program back as it was: the plant, the settings,
/// the ledger, the plants of the garden and the queue are those of the
/// program that the snapshot was taken of, and the streaks are those of its
/// ledger on the day of the start. If the garden held those streaks when
/// the snapshot was taken, a snapshot of the program brought back is the
/// same snapshot.
pub proof fn lemma_snapshot_round_trip(app: AppView, today: Date)
    requires
        app.settings.valid(),
        app.plant.wf(),
        app.statistics.recent_sessions.len() <= u32::MAX,
    ensures
        ({
            let back = AppView::restored(app.snapshot(), today);
            &&& back.plant == app.plant
            &&& back.settings == app.settings
            &&& back.theme == Theme::palette(app.settings.theme)
            &&& back.timer.auto_run == app.timer.auto_run
            &&& back.timer.auto_run_index == app.timer.auto_run_index
            &&& back.statistics == app.snapshot().statistics
            &&& back.garden == app.garden.with_streaks(app.statistics.recent_sessions, today)
            &&& app.garden == app.garden.with_streaks(app.statistics.recent_sessions, today)
                ==> back.snapshot() == app.snapshot()
        }),
{
}

/// Starting from a usable snapshot and taking a snapshot at once gives the
/// same snapshot with the streaks of the day in it, if the stage number of
/// the snapshot was the one of its growth points.
pub proof fn lemma_restore_then_snapshot(data: DataView, today: Date)
    requires
        data.usable(),
        Plant::with_points(data.growth_points) == (Plant {
            stage: PlantStage::numbered(data.current_plant_stage),
            growth_points: data.growth_points as u32,
        }),
        data.current_plant_stage <= 4,
        data.growth_points <= MAX_GROWTH,
    ensures
        ({
            let garden = GardenView::empty().with_streaks(data.statistics.recent_sessions, today);
            AppView::restored(data, today).snapshot() == DataView {
                statistics: StatisticsView {
                    current_streak: garden.current_streak,
                    longest_streak: garden.longest_streak,
                    current_streak_start_date: garden.current_streak_start_date,
                    longest_streak_end_date: garden.longest_streak_end_date,
                    current_streak_dates: garden.current_streak_dates,
                    longest_streak_dates: garden.longest_streak_dates,
                    ..data.statistics
                },
                ..data
            }
        }),
{
}

/// What completing a session does, whatever the session: it counts exactly
/// once; the plant in progress is well formed and not complete, a complete
/// one having gone to the garden; a ledger in order stays in order; and
/// the day of the session is part of the current streak, which is therefore
/// at least a day long and never longer than the longest.
pub proof fn lemma_completed(app: AppView, now: Now)
    requires
        app.can_complete(now.today),
    ensures
        ({
            let after = app.completed(now);
            &&& after.statistics.total_sessions == app.statistics.total_sessions + 1
            &&& after.statistics.total_minutes == app.statistics.total_minutes
                + app.session_minutes()
            &&& after.statistics.total_focus_sessions + after.statistics.total_break_sessions
                == app.statistics.total_focus_sessions + app.statistics.total_break_sessions + 1
            &&& after.plant.wf() && !after.plant.complete()
            &&& after.garden.completed_plants.len() == app.garden.completed_plants.len() + (
            if app.plant.grown().complete() {
                1nat
            } else {
                0nat
            })
            &&& after.statistics.completed_plants == app.statistics.completed_plants + (
            if app.plant.grown().complete() {
                1nat
            } else {
                0nat
            })
            &&& app.statistics.wf() ==> after.statistics.wf()
            &&& after.statistics.session_log.last().end_time == now.at
            &&& 1 <= after.garden.current_streak <= after.garden.longest_streak
            &&& after.garden.current_streak_dates.last().days >= now.today.days
            &&& after.settings == app.settings
        }),
{
    let after = app.completed(now);
    let today = now.today;
    let kind = app.timer.session_type;
    let minutes = app.session_minutes();
    let booked = app.statistics.recorded(kind, minutes, today);
    lemma_with_count(app.statistics.recent_sessions, today, 1, today);
    lemma_with_minutes(app.statistics.recent_minutes, today, minutes, today);
    if kind == SessionType::Focus {
        lemma_with_count(app.statistics.recent_focus_sessions, today, 1, today);
        lemma_with_minutes(app.statistics.recent_focus_minutes, today, minutes, today);
    } else {
        lemma_with_count(app.statistics.recent_break_sessions, today, 1, today);
        lemma_with_minutes(app.statistics.recent_break_minutes, today, minutes, today);
    }
    if app.plant.grown().complete() {
        lemma_with_count(app.statistics.recent_plants, today, 1, today);
    }
    if app.statistics.wf() {
        let before_log = if app.plant.grown().complete() {
            booked.plant_recorded(today)
        } else {
            booked
        };
        lemma_log_is_bounded_queue(
            before_log,
            SessionLog { session_type: kind, duration: minutes as u64, end_time: now.at },
        );
    }
    let entries = with_count(app.statistics.recent_sessions, today, 1);
    assert(after.statistics.recent_sessions == entries);
    let days = active_days(entries);
    lemma_active_days(entries);
    lemma_position_of(app.statistics.recent_sessions, today);
    let place = position_of(app.statistics.recent_sessions, today);
    assert(entries[place].0 == today);
    assert(days.contains(today));
    let k = choose|k: int| 0 <= k < days.len() && days[k] == today;
    assert(alive(days.last(), today));
    lemma_current_streak(days, today);
    lemma_current_within_longest(days, today);
}

/// Every action of the user keeps a program in order: the session lengths
/// stay between one minute and an hour, the selections stay on their lists,
/// and the colours are those of the chosen theme.
pub proof fn lemma_input_keeps_order(app: AppView, action: InputAction)
    requires
        app.wf(),
    ensures
        app.after_input(action).wf(),
{
}


} // verus!
