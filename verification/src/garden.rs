//! The garden: the plants grown so far, and the streaks of active days.

use vstd::prelude::*;
use crate::clock::{read_clock, Date, Timestamp};
use crate::plant::Plant;

verus! {

/// A plant that was grown to the end, and when it was.
#[derive(Debug, Clone, Copy, PartialEq, Eq, Structural)]
pub struct CompletedPlant {
    pub plant: Plant,
    pub completed_at: Timestamp,
}

/// The dates stand in ascending order, none of them twice.
pub open spec fn ascending(days: Seq<Date>) -> bool {
    forall|i: int, j: int| 0 <= i < j < days.len() ==> days[i].days < days[j].days
}

/// An ascending list of dates with one more date put in at its place. A date
/// that the list holds already is not put in again.
pub open spec fn with_day(days: Seq<Date>, date: Date) -> Seq<Date>
    decreases days.len(),
{
    if days.len() == 0 {
        seq![date]
    } else if days.last().days < date.days {
        days.push(date)
    } else if days.last().days == date.days {
        days
    } else {
        with_day(days.drop_last(), date).push(days.last())
    }
}

/// The dates that have an entry in a list of daily totals: each of them
/// once, in ascending order.
pub open spec fn active_days(entries: Seq<(Date, u32)>) -> Seq<Date>
    decreases entries.len(),
{
    if entries.len() == 0 {
        Seq::empty()
    } else {
        with_day(active_days(entries.drop_last()), entries.last().0)
    }
}

/// Where the run of consecutive days that holds the date at `end` begins.
pub open spec fn run_start(days: Seq<Date>, end: int) -> int
    decreases end,
{
    if 0 < end < days.len() && days[end - 1].precedes(days[end]) {
        run_start(days, end - 1)
    } else {
        end
    }
}

/// Where the run of consecutive days that holds the date at `start` ends.
pub open spec fn run_end(days: Seq<Date>, start: int) -> int
    decreases days.len() - start,
{
    if 0 <= start && start + 1 < days.len() && days[start].precedes(days[start + 1]) {
        run_end(days, start + 1)
    } else {
        start
    }
}

/// The number of days in the run of consecutive days that holds the date at
/// `at`.
pub open spec fn run_length(days: Seq<Date>, at: int) -> int {
    run_end(days, at) - run_start(days, at) + 1
}

/// The longest run of consecutive days among the runs of the first `upto`
/// dates, as the place where it begins and its number of days. Of runs of
/// one length the earliest counts.
pub open spec fn longest_run_upto(days: Seq<Date>, upto: int) -> (int, int)
    decreases upto,
{
    if upto <= 0 {
        (0, 0)
    } else {
        let before = longest_run_upto(days, upto - 1);
        if run_length(days, upto - 1) > before.1 {
            (run_start(days, upto - 1), run_length(days, upto - 1))
        } else {
            before
        }
    }
}

/// The longest run of consecutive days in an ascending list of dates, as
/// the place where it begins and its number of days.
pub open spec fn longest_run(days: Seq<Date>) -> (int, int) {
    longest_run_upto(days, days.len() as int)
}

/// The dates of the longest run of consecutive days.
pub open spec fn longest_streak_of(days: Seq<Date>) -> Seq<Date> {
    days.subrange(longest_run(days).0, longest_run(days).0 + longest_run(days).1)
}

/// Whether a streak that ended on `last` is still alive on `today`: it is
/// unless `last` is older than the day before `today`.
pub open spec fn alive(last: Date, today: Date) -> bool {
    last.days + 1 >= today.days
}

/// The dates of the current streak: the run of consecutive days that ends
/// with the last active day, if that streak is still alive on `today`.
pub open spec fn current_streak_of(days: Seq<Date>, today: Date) -> Seq<Date> {
    if days.len() > 0 && alive(days.last(), today) {
        days.subrange(run_start(days, days.len() - 1), days.len() as int)
    } else {
        Seq::empty()
    }
}

/// The place found by going down from the end of an ascending list past
/// every date that is later than `date` is the place at which `with_day`
/// puts it.
proof fn lemma_with_day_at(days: Seq<Date>, date: Date, k: int)
    requires
        0 <= k <= days.len(),
        forall|j: int| k <= j < days.len() ==> days[j].days > date.days,
        k == 0 || days[k - 1].days <= date.days,
    ensures
        with_day(days, date) == if k > 0 && days[k - 1].days == date.days {
            days
        } else {
            days.insert(k, date)
        },
    decreases days.len() - k,
{
    if k == days.len() {
        if days.len() == 0 {
            assert(seq![date] =~= days.insert(0, date));
        } else if days.last().days < date.days {
            assert(days.push(date) =~= days.insert(k, date));
        }
    } else {
        let front = days.drop_last();
        lemma_with_day_at(front, date, k);
        if k > 0 && days[k - 1].days == date.days {
            assert(front.push(days.last()) =~= days);
        } else {
            assert(front.insert(k, date).push(days.last()) =~= days.insert(k, date));
        }
    }
}

/// Puts a date into an ascending list at its place, unless it is there.
fn insert_day(days: &mut Vec<Date>, date: Date)
    ensures
        final(days)@ == with_day(old(days)@, date),
{
    let mut k: usize = days.len();
    while k > 0 && days[k - 1].days > date.days
        invariant
            k <= days@.len(),
            days@ == old(days)@,
            forall|j: int| k <= j < days@.len() ==> days@[j].days > date.days,
        decreases k,
    {
        k -= 1;
    }
    proof {
        lemma_with_day_at(days@, date, k as int);
    }
    if k > 0 && days[k - 1].days == date.days {
        return ;
    }
    days.insert(k, date);
}

/// The dates that have an entry in a list of daily totals: each of them
/// once, in ascending order.
pub fn sorted_days(entries: &Vec<(Date, u32)>) -> (days: Vec<Date>)
    ensures
        days@ == active_days(entries@),
{
    let mut days: Vec<Date> = Vec::new();
    let mut i: usize = 0;
    while i < entries.len()
        invariant
            i <= entries@.len(),
            days@ == active_days(entries@.subrange(0, i as int)),
        decreases entries@.len() - i,
    {
        proof {
            let upto = entries@.subrange(0, i + 1);
            assert(upto.drop_last() == entries@.subrange(0, i as int));
            assert(upto.last() == entries@[i as int]);
        }
        insert_day(&mut days, entries[i].0);
        i += 1;
    }
    assert(entries@.subrange(0, entries@.len() as int) == entries@);
    days
}

/// A copy of the dates from place `from` up to, not including, place `to`.
fn copy_days(days: &Vec<Date>, from: usize, to: usize) -> (copy: Vec<Date>)
    requires
        from <= to <= days@.len(),
    ensures
        copy@ == days@.subrange(from as int, to as int),
{
    let mut copy: Vec<Date> = Vec::new();
    let mut i: usize = from;
    while i < to
        invariant
            from <= i <= to <= days@.len(),
            copy@ == days@.subrange(from as int, i as int),
        decreases to - i,
    {
        copy.push(days[i]);
        i += 1;
        assert(copy@ == days@.subrange(from as int, i as int));
    }
    copy
}

/// The dates from place `lo` to place `hi` are consecutive days.
pub open spec fn is_run(days: Seq<Date>, lo: int, hi: int) -> bool {
    &&& 0 <= lo <= hi < days.len()
    &&& forall|k: int| lo <= k < hi ==> (#[trigger] days[k]).precedes(days[k + 1])
}

/// The dates from place `lo` to place `hi` are consecutive days, and neither
/// the date before them nor the date after them continues the run.
pub open spec fn is_maximal_run(days: Seq<Date>, lo: int, hi: int) -> bool {
    &&& is_run(days, lo, hi)
    &&& (lo == 0 || !days[lo - 1].precedes(days[lo]))
    &&& (hi == days.len() - 1 || !days[hi].precedes(days[hi + 1]))
}

/// Every date of a maximal run has the beginning of the run as its
/// `run_start`.
proof fn lemma_run_start_in_run(days: Seq<Date>, lo: int, hi: int, k: int)
    requires
        is_maximal_run(days, lo, hi),
        lo <= k <= hi,
    ensures
        run_start(days, k) == lo,
    decreases k - lo,
{
    if k > lo {
        assert(days[k - 1].precedes(days[k - 1 + 1]));
        lemma_run_start_in_run(days, lo, hi, k - 1);
    }
}

/// Every date of a maximal run has the end of the run as its `run_end`.
proof fn lemma_run_end_in_run(days: Seq<Date>, lo: int, hi: int, k: int)
    requires
        is_maximal_run(days, lo, hi),
        lo <= k <= hi,
    ensures
        run_end(days, k) == hi,
    decreases hi - k,
{
    if k < hi {
        assert(days[k].precedes(days[k + 1]));
        lemma_run_end_in_run(days, lo, hi, k + 1);
    }
}

/// Going through the dates of one maximal run, the longest run so far
/// changes at most once: to this run, if it is longer than the longest
/// before it.
proof fn lemma_longest_over_run(days: Seq<Date>, lo: int, hi: int, k: int)
    requires
        is_maximal_run(days, lo, hi),
        lo < k <= hi + 1,
    ensures
        longest_run_upto(days, k) == if hi - lo + 1 > longest_run_upto(days, lo).1 {
            (lo, hi - lo + 1)
        } else {
            longest_run_upto(days, lo)
        },
    decreases k - lo,
{
    lemma_run_start_in_run(days, lo, hi, k - 1);
    lemma_run_end_in_run(days, lo, hi, k - 1);
    if k - 1 > lo {
        lemma_longest_over_run(days, lo, hi, k - 1);
    }
}

/// The garden: the plants grown to the end, and the streaks of consecutive
/// active days as they were last computed.
#[derive(Debug, Clone)]
pub struct Garden {
    pub completed_plants: Vec<CompletedPlant>,
    pub current_streak: u32,
    pub longest_streak: u32,
    pub current_streak_start_date: Option<Date>,
    pub longest_streak_end_date: Option<Date>,
    pub current_streak_dates: Vec<Date>,
    pub longest_streak_dates: Vec<Date>,
}

/// The garden as a mathematical value.
pub struct GardenView {
    pub completed_plants: Seq<CompletedPlant>,
    pub current_streak: nat,
    pub longest_streak: nat,
    pub current_streak_start_date: Option<Date>,
    pub longest_streak_end_date: Option<Date>,
    pub current_streak_dates: Seq<Date>,
    pub longest_streak_dates: Seq<Date>,
}

impl View for Garden {
    type V = GardenView;

    open spec fn view(&self) -> GardenView {
        GardenView {
            completed_plants: self.completed_plants@,
            current_streak: self.current_streak as nat,
            longest_streak: self.longest_streak as nat,
            current_streak_start_date: self.current_streak_start_date,
            longest_streak_end_date: self.longest_streak_end_date,
            current_streak_dates: self.current_streak_dates@,
            longest_streak_dates: self.longest_streak_dates@,
        }
    }
}

/// The first of the dates; none for no dates.
pub open spec fn first_of(dates: Seq<Date>) -> Option<Date> {
    if dates.len() > 0 {
        Some(dates.first())
    } else {
        None
    }
}

/// The last of the dates; none for no dates.
pub open spec fn last_of(dates: Seq<Date>) -> Option<Date> {
    if dates.len() > 0 {
        Some(dates.last())
    } else {
        None
    }
}

impl GardenView {
    /// An empty garden without streaks.
    pub open spec fn empty() -> GardenView {
        GardenView {
            completed_plants: Seq::empty(),
            current_streak: 0,
            longest_streak: 0,
            current_streak_start_date: None,
            longest_streak_end_date: None,
            current_streak_dates: Seq::empty(),
            longest_streak_dates: Seq::empty(),
        }
    }

    /// The garden with one more grown plant at the end of its list. The
    /// streaks are not touched.
    pub open spec fn with_plant(self, plant: Plant, at: Timestamp) -> GardenView {
        GardenView {
            completed_plants: self.completed_plants.push(
                CompletedPlant { plant, completed_at: at },
            ),
            ..self
        }
    }

    /// The garden with its streaks computed afresh from the days that have
    /// an entry in `recent_sessions`, as seen on `today`. Nothing of the
    /// streaks before goes into them.
    pub open spec fn with_streaks(self, recent_sessions: Seq<(Date, u32)>, today: Date) -> GardenView {
        let days = active_days(recent_sessions);
        let current = current_streak_of(days, today);
        let longest = longest_streak_of(days);
        GardenView {
            current_streak: current.len(),
            longest_streak: longest.len(),
            current_streak_start_date: first_of(current),
            longest_streak_end_date: last_of(longest),
            current_streak_dates: current,
            longest_streak_dates: longest,
            ..self
        }
    }
}

impl Garden {
    /// An empty garden without streaks.
    pub fn new() -> (g: Garden)
        ensures
            g@ == GardenView::empty(),
    {
        Garden {
            completed_plants: Vec::new(),
            current_streak: 0,
            longest_streak: 0,
            current_streak_start_date: None,
            longest_streak_end_date: None,
            current_streak_dates: Vec::new(),
            longest_streak_dates: Vec::new(),
        }
    }

    /// Puts a plant that was grown to the end at `at` into the garden. The
    /// streaks are not touched.
    pub fn add_completed_plant_at(&mut self, plant: Plant, at: Timestamp)
        ensures
            final(self)@ == old(self)@.with_plant(plant, at),
    {
        self.completed_plants.push(CompletedPlant { plant, completed_at: at });
    }

    /// Puts a plant that was grown to the end just now into the garden, with
    /// the instant that the clock gives. The streaks are not touched.
    pub fn add_completed_plant(&mut self, plant: Plant)
        ensures
            exists|at: Timestamp| final(self)@ == #[trigger] old(self)@.with_plant(plant, at),
            final(self)@.completed_plants.len() == old(self)@.completed_plants.len() + 1,
            final(self)@.completed_plants.last().plant == plant,
            final(self)@.completed_plants.drop_last() == old(self)@.completed_plants,
            final(self)@ == (GardenView {
                completed_plants: final(self)@.completed_plants,
                ..old(self)@
            }),
    {
        let now = read_clock();
        self.add_completed_plant_at(plant, now.at);
        assert(self@.completed_plants.drop_last() == old(self)@.completed_plants);
    }

    /// Sets the current streak to zero days.
    pub fn reset_streak(&mut self)
        ensures
            final(self)@ == (GardenView { current_streak: 0, ..old(self)@ }),
    {
        self.current_streak = 0;
    }

    /// The number of plants grown to the end.
    pub fn total_completed(&self) -> (n: usize)
        ensures
            n == self@.completed_plants.len(),
    {
        self.completed_plants.len()
    }

    /// Computes the streaks afresh from the days that have an entry in
    /// `recent_sessions`, as seen on `today`.
    pub fn update_streaks_at(&mut self, recent_sessions: &Vec<(Date, u32)>, today: Date)
        requires
            recent_sessions@.len() <= u32::MAX,
        ensures
            final(self)@ == old(self)@.with_streaks(recent_sessions@, today),
            final(self)@.current_streak <= final(self)@.longest_streak,
            recent_sessions@.len() == 0 ==> final(self)@ == (GardenView {
                current_streak: 0,
                longest_streak: 0,
                current_streak_start_date: None,
                longest_streak_end_date: None,
                current_streak_dates: Seq::empty(),
                longest_streak_dates: Seq::empty(),
                ..old(self)@
            }),
    {
        let days = sorted_days(recent_sessions);
        proof {
            lemma_active_days(recent_sessions@);
        }
        let n = days.len();
        let mut current: Vec<Date> = Vec::new();
        if n > 0 {
            let last = days[n - 1];
            if last.days >= today.days || last.days + 1 == today.days {
                let mut i: usize = n - 1;
                while i > 0 && days[i - 1].is_day_before(&days[i])
                    invariant
                        i < n,
                        n == days@.len(),
                        run_start(days@, n - 1) == run_start(days@, i as int),
                    decreases i,
                {
                    i -= 1;
                }
                current = copy_days(&days, i, n);
            }
        }
        assert(current@ == current_streak_of(days@, today));
        let mut best_start: usize = 0;
        let mut best_len: usize = 0;
        let mut i: usize = 0;
        while i < n
            invariant
                i <= n,
                n == days@.len(),
                (best_start as int, best_len as int) == longest_run_upto(days@, i as int),
                best_start + best_len <= i,
                0 < i < n ==> !days@[i - 1].precedes(days@[i as int]),
            decreases n - i,
        {
            let mut j: usize = i;
            while j + 1 < n && days[j].is_day_before(&days[j + 1])
                invariant
                    i <= j < n,
                    n == days@.len(),
                    is_run(days@, i as int, j as int),
                decreases n - j,
            {
                j += 1;
            }
            proof {
                assert(is_maximal_run(days@, i as int, j as int));
                lemma_longest_over_run(days@, i as int, j as int, j + 1);
            }
            let len = j - i + 1;
            if len > best_len {
                best_start = i;
                best_len = len;
            }
            i = j + 1;
        }
        let longest = copy_days(&days, best_start, best_start + best_len);
        assert(longest@ == longest_streak_of(days@));
        self.current_streak = current.len() as u32;
        self.longest_streak = longest.len() as u32;
        self.current_streak_start_date = if current.len() > 0 {
            Some(current[0])
        } else {
            None
        };
        self.longest_streak_end_date = if longest.len() > 0 {
            Some(longest[longest.len() - 1])
        } else {
            None
        };
        self.current_streak_dates = current;
        self.longest_streak_dates = longest;
        proof {
            lemma_current_within_longest(days@, today);
            if recent_sessions@.len() == 0 {
                assert(recent_sessions@ =~= Seq::empty());
                lemma_no_sessions_no_streaks(old(self)@, today);
            }
        }
    }

    /// Computes the streaks afresh from the days that have an entry in
    /// `recent_sessions`, as seen on the day that the clock gives.
    pub fn update_streaks(&mut self, recent_sessions: &Vec<(Date, u32)>)
        requires
            recent_sessions@.len() <= u32::MAX,
        ensures
            exists|today: Date| final(self)@ == #[trigger] old(self)@.with_streaks(
                recent_sessions@,
                today,
            ),
            final(self)@.longest_streak_dates == longest_streak_of(active_days(recent_sessions@)),
            final(self)@.longest_streak == final(self)@.longest_streak_dates.len(),
            final(self)@.longest_streak_end_date == last_of(
                final(self)@.longest_streak_dates,
            ),
            final(self)@.current_streak == final(self)@.current_streak_dates.len(),
            final(self)@.current_streak_start_date == first_of(
                final(self)@.current_streak_dates,
            ),
            final(self)@.current_streak <= final(self)@.longest_streak,
            final(self)@.completed_plants == old(self)@.completed_plants,
    {
        let now = read_clock();
        self.update_streaks_at(recent_sessions, now.today);
        proof {
            lemma_current_within_longest(active_days(recent_sessions@), now.today);
        }
    }
}

/// Putting a date into an ascending list keeps the list ascending, and adds
/// this date to the dates it holds and no other.
pub proof fn lemma_with_day(days: Seq<Date>, date: Date)
    requires
        ascending(days),
    ensures
        ascending(with_day(days, date)),
        days.len() <= with_day(days, date).len() <= days.len() + 1,
        forall|d: Date| #[trigger]
            with_day(days, date).contains(d) <==> (d == date || days.contains(d)),
    decreases days.len(),
{
    let after = with_day(days, date);
    if days.len() == 0 {
        assert(after[0] == date);
    } else if days.last().days < date.days {
        assert(after[days.len() as int] == date);
        assert forall|d: Date| days.contains(d) implies after.contains(d) by {
            let i = choose|i: int| 0 <= i < days.len() && days[i] == d;
            assert(after[i] == d);
        }
    } else if days.last().days == date.days {
        assert(days[days.len() - 1] == date);
    } else {
        let front = days.drop_last();
        let last = days.last();
        let mid = with_day(front, date);
        assert(ascending(front)) by {
            assert forall|i: int, j: int| 0 <= i < j < front.len() implies front[i].days
                < front[j].days by {
                assert(front[i] == days[i] && front[j] == days[j]);
            }
        }
        lemma_with_day(front, date);
        assert forall|i: int| 0 <= i < mid.len() implies (#[trigger] mid[i]).days < last.days by {
            assert(mid.contains(mid[i]));
            if mid[i] != date {
                let k = choose|k: int| 0 <= k < front.len() && front[k] == mid[i];
                assert(days[k] == mid[i]);
            }
        }
        assert forall|d: Date| #[trigger] after.contains(d) <==> (d == date || days.contains(
            d,
        )) by {
            if after.contains(d) {
                let i = choose|i: int| 0 <= i < after.len() && after[i] == d;
                if i < mid.len() {
                    assert(mid.contains(mid[i]));
                    if d != date {
                        let k = choose|k: int| 0 <= k < front.len() && front[k] == d;
                        assert(days[k] == d);
                    }
                } else {
                    assert(days[days.len() - 1] == d);
                }
            }
            if d == date {
                assert(mid.contains(date));
                let i = choose|i: int| 0 <= i < mid.len() && mid[i] == date;
                assert(after[i] == date);
            }
            if days.contains(d) {
                let k = choose|k: int| 0 <= k < days.len() && days[k] == d;
                if k < front.len() {
                    assert(front[k] == d);
                    assert(front.contains(d));
                    assert(mid.contains(d));
                    let i = choose|i: int| 0 <= i < mid.len() && mid[i] == d;
                    assert(after[i] == d);
                } else {
                    assert(after[mid.len() as int] == d);
                }
            }
        }
    }
}

/// The active days of a list of daily totals are the dates that have an
/// entry in it, each once, in ascending order.
pub proof fn lemma_active_days(entries: Seq<(Date, u32)>)
    ensures
        ascending(active_days(entries)),
        active_days(entries).len() <= entries.len(),
        entries.len() > 0 ==> active_days(entries).len() > 0,
        forall|d: Date| #[trigger]
            active_days(entries).contains(d) <==> exists|i: int|
                0 <= i < entries.len() && (#[trigger] entries[i]).0 == d,
    decreases entries.len(),
{
    if entries.len() > 0 {
        let front = entries.drop_last();
        let date = entries.last().0;
        lemma_active_days(front);
        lemma_with_day(active_days(front), date);
        let days = active_days(entries);
        assert forall|d: Date| #[trigger] days.contains(d) <==> exists|i: int|
            0 <= i < entries.len() && (#[trigger] entries[i]).0 == d by {
            if days.contains(d) {
                if d == date {
                    assert(entries[entries.len() - 1].0 == d);
                } else {
                    assert(active_days(front).contains(d));
                    let i = choose|i: int| 0 <= i < front.len() && (#[trigger] front[i]).0 == d;
                    assert(entries[i].0 == d);
                }
            }
            if exists|i: int| 0 <= i < entries.len() && (#[trigger] entries[i]).0 == d {
                let i = choose|i: int| 0 <= i < entries.len() && (#[trigger] entries[i]).0 == d;
                if i < front.len() {
                    assert(front[i].0 == d);
                    assert(active_days(front).contains(d));
                }
            }
        }
    }
}


/// Two ascending lists that hold the same dates are the same list: so the
/// active days of a list of daily totals are the only ascending list of its
/// dates.
pub proof fn lemma_ascending_unique(a: Seq<Date>, b: Seq<Date>)
    requires
        ascending(a),
        ascending(b),
        forall|d: Date| a.contains(d) <==> b.contains(d),
    ensures
        a == b,
    decreases a.len(),
{
    if a.len() == 0 {
        if b.len() > 0 {
            assert(b.contains(b[0]));
            assert(a.contains(b[0]));
        }
        assert(a =~= b);
    } else {
        assert(a.contains(a[a.len() - 1]));
        assert(b.contains(a.last()));
        let kb = choose|k: int| 0 <= k < b.len() && b[k] == a.last();
        assert(b.contains(b[b.len() - 1]));
        assert(a.contains(b.last()));
        let ka = choose|k: int| 0 <= k < a.len() && a[k] == b.last();
        assert(a.last() == b.last());
        let fa = a.drop_last();
        let fb = b.drop_last();
        assert forall|d: Date| fa.contains(d) <==> fb.contains(d) by {
            if fa.contains(d) {
                let i = choose|i: int| 0 <= i < fa.len() && fa[i] == d;
                assert(a[i] == d);
                assert(a.contains(d));
                let j = choose|j: int| 0 <= j < b.len() && b[j] == d;
                assert(j < b.len() - 1);
                assert(fb[j] == d);
            }
            if fb.contains(d) {
                let i = choose|i: int| 0 <= i < fb.len() && fb[i] == d;
                assert(b[i] == d);
                assert(b.contains(d));
                let j = choose|j: int| 0 <= j < a.len() && a[j] == d;
                assert(j < a.len() - 1);
                assert(fa[j] == d);
            }
        }
        lemma_ascending_unique(fa, fb);
        assert(a =~= fa.push(a.last()));
        assert(b =~= fb.push(b.last()));
    }
}

/// The run that `run_start` and `run_end` give for a date is the maximal
/// run of consecutive days that holds it.
pub proof fn lemma_run_of(days: Seq<Date>, at: int)
    requires
        0 <= at < days.len(),
    ensures
        run_start(days, at) <= at <= run_end(days, at),
        is_maximal_run(days, run_start(days, at), run_end(days, at)),
        run_length(days, at) >= 1,
{
    lemma_run_start_bounds(days, at);
    lemma_run_end_bounds(days, at);
    let lo = run_start(days, at);
    let hi = run_end(days, at);
    assert forall|k: int| lo <= k < hi implies (#[trigger] days[k]).precedes(days[k + 1]) by {
        if k < at {
            assert(is_run(days, lo, at));
        } else {
            assert(is_run(days, at, hi));
        }
    }
}

proof fn lemma_run_start_bounds(days: Seq<Date>, at: int)
    requires
        0 <= at < days.len(),
    ensures
        0 <= run_start(days, at) <= at,
        is_run(days, run_start(days, at), at),
        run_start(days, at) == 0 || !days[run_start(days, at) - 1].precedes(
            days[run_start(days, at)],
        ),
    decreases at,
{
    if 0 < at && days[at - 1].precedes(days[at]) {
        lemma_run_start_bounds(days, at - 1);
        let lo = run_start(days, at - 1);
        assert forall|k: int| lo <= k < at implies (#[trigger] days[k]).precedes(days[k + 1]) by {
            if k < at - 1 {
                assert(is_run(days, lo, at - 1));
            }
        }
    }
}

proof fn lemma_run_end_bounds(days: Seq<Date>, at: int)
    requires
        0 <= at < days.len(),
    ensures
        at <= run_end(days, at) < days.len(),
        is_run(days, at, run_end(days, at)),
        run_end(days, at) == days.len() - 1 || !days[run_end(days, at)].precedes(
            days[run_end(days, at) + 1],
        ),
    decreases days.len() - at,
{
    if at + 1 < days.len() && days[at].precedes(days[at + 1]) {
        lemma_run_end_bounds(days, at + 1);
        let hi = run_end(days, at + 1);
        assert forall|k: int| at <= k < hi implies (#[trigger] days[k]).precedes(days[k + 1]) by {
            if k > at {
                assert(is_run(days, at + 1, hi));
            }
        }
    }
}

/// The current streak is empty when there is no active day or the last one
/// is older than yesterday. Otherwise it is the maximal run of consecutive
/// days that ends with the last active day; a last active day that stands
/// alone is a streak of one day.
pub proof fn lemma_current_streak(days: Seq<Date>, today: Date)
    ensures
        days.len() == 0 || !alive(days.last(), today) ==> current_streak_of(days, today).len()
            == 0,
        days.len() > 0 && alive(days.last(), today) ==> {
            let lo = run_start(days, days.len() - 1);
            &&& is_maximal_run(days, lo, days.len() - 1)
            &&& current_streak_of(days, today) == days.subrange(lo, days.len() as int)
            &&& current_streak_of(days, today).len() == days.len() - lo >= 1
            &&& current_streak_of(days, today).last() == days.last()
        },
{
    if days.len() > 0 {
        lemma_run_of(days, days.len() - 1);
    }
}

/// What `longest_run_upto` holds after the first `upto` dates: the run of
/// one of them, no shorter than the run of any of them, and beginning no
/// later than any run of its length.
proof fn lemma_longest_run_upto(days: Seq<Date>, upto: int)
    requires
        0 < upto <= days.len(),
    ensures
        exists|m: int|
            0 <= m < upto && longest_run_upto(days, upto) == (
                #[trigger] run_start(days, m),
                run_length(days, m),
            ),
        forall|m: int|
            0 <= m < upto ==> #[trigger] run_length(days, m) < longest_run_upto(days, upto).1 || (
            run_length(days, m) == longest_run_upto(days, upto).1 && longest_run_upto(
                days,
                upto,
            ).0 <= run_start(days, m)),
    decreases upto,
{
    let now = longest_run_upto(days, upto);
    lemma_run_of(days, upto - 1);
    if upto == 1 {
        assert(longest_run_upto(days, 0) == (0int, 0int));
        assert(now == (run_start(days, 0), run_length(days, 0)));
    } else {
        lemma_longest_run_upto(days, upto - 1);
        let before = longest_run_upto(days, upto - 1);
        let w = choose|m: int|
            0 <= m < upto - 1 && before == (#[trigger] run_start(days, m), run_length(days, m));
        if run_length(days, upto - 1) > before.1 {
            assert(now == (run_start(days, upto - 1), run_length(days, upto - 1)));
        } else {
            assert(now == (run_start(days, w), run_length(days, w)));
            lemma_run_start_monotone(days, w, upto - 1);
        }
    }
}

/// A later date's run does not begin before an earlier date's run.
proof fn lemma_run_start_monotone(days: Seq<Date>, a: int, b: int)
    requires
        0 <= a <= b < days.len(),
    ensures
        run_start(days, a) <= run_start(days, b),
    decreases b - a,
{
    lemma_run_start_bounds(days, a);
    if a < b {
        lemma_run_start_monotone(days, a, b - 1);
        lemma_run_start_bounds(days, b - 1);
    }
}

/// The longest streak of a list with dates in it is a maximal run of
/// consecutive days. No maximal run is longer, and none of the same length
/// begins earlier.
pub proof fn lemma_longest_streak(days: Seq<Date>)
    requires
        days.len() > 0,
    ensures
        ({
            let (lo, len) = longest_run(days);
            &&& len >= 1
            &&& is_maximal_run(days, lo, lo + len - 1)
            &&& longest_streak_of(days).len() == len
            &&& forall|a: int, b: int| #[trigger]
                is_maximal_run(days, a, b) ==> b - a + 1 < len || (b - a + 1 == len && lo <= a)
        }),
{
    let (lo, len) = longest_run(days);
    lemma_longest_run_upto(days, days.len() as int);
    let m = choose|m: int|
        0 <= m < days.len() && longest_run_upto(days, days.len() as int) == (
            #[trigger] run_start(days, m),
            run_length(days, m),
        );
    lemma_run_of(days, m);
    assert forall|a: int, b: int| #[trigger] is_maximal_run(days, a, b) implies b - a + 1 < len
        || (b - a + 1 == len && lo <= a) by {
        lemma_run_start_in_run(days, a, b, a);
        lemma_run_end_in_run(days, a, b, a);
        assert(run_length(days, a) == b - a + 1);
    }
}

/// Without sessions there are no streaks: both are zero days long, and
/// their dates and instants are cleared.
pub proof fn lemma_no_sessions_no_streaks(garden: GardenView, today: Date)
    ensures
        garden.with_streaks(Seq::empty(), today) == (GardenView {
            current_streak: 0,
            longest_streak: 0,
            current_streak_start_date: None,
            longest_streak_end_date: None,
            current_streak_dates: Seq::empty(),
            longest_streak_dates: Seq::empty(),
            ..garden
        }),
{
    let days = active_days(Seq::<(Date, u32)>::empty());
    assert(days.len() == 0);
    assert(longest_run_upto(days, 0) == (0int, 0int));
    assert(longest_streak_of(days) =~= Seq::<Date>::empty());
    assert(current_streak_of(days, today) =~= Seq::<Date>::empty());
}

/// The current streak is never longer than the longest streak.
pub proof fn lemma_current_within_longest(days: Seq<Date>, today: Date)
    ensures
        current_streak_of(days, today).len() <= longest_streak_of(days).len(),
{
    if days.len() > 0 {
        lemma_current_streak(days, today);
        lemma_longest_streak(days);
        if alive(days.last(), today) {
            assert(is_maximal_run(days, run_start(days, days.len() - 1), days.len() - 1));
        }
    }
}

/// The streaks are computed from the daily totals and the day alone: what
/// the garden held as streaks before plays no part, and computing them a
/// second time changes nothing.
pub proof fn lemma_streaks_from_scratch(
    garden: GardenView,
    other: GardenView,
    recent_sessions: Seq<(Date, u32)>,
    today: Date,
)
    requires
        garden.completed_plants == other.completed_plants,
    ensures
        garden.with_streaks(recent_sessions, today) == other.with_streaks(recent_sessions, today),
        garden.with_streaks(recent_sessions, today).with_streaks(recent_sessions, today)
            == garden.with_streaks(recent_sessions, today),
        garden.with_streaks(recent_sessions, today).current_streak <= garden.with_streaks(
            recent_sessions,
            today,
        ).longest_streak,
{
    lemma_current_within_longest(active_days(recent_sessions), today);
}


} // verus!
