use chrono::{Datelike, Local, NaiveDate, Utc};

use focus_garden::clock::{Date, Timestamp};
use focus_garden::garden::{sorted_days, CompletedPlant, Garden};
use focus_garden::plant::{Plant, PlantStage};

fn day(year: i32, month: u32, day: u32) -> Date {
    Date { days: NaiveDate::from_ymd_opt(year, month, day).unwrap().to_epoch_days() }
}

fn entries(dates: &[Date]) -> Vec<(Date, u32)> {
    dates.iter().map(|d| (*d, 1)).collect()
}

fn local_today() -> Date {
    Date { days: Local::now().date_naive().to_epoch_days() }
}

fn days_before(today: Date, n: i32) -> Date {
    Date { days: today.days - n }
}

#[test]
fn dates_count_days_from_the_epoch() {
    assert_eq!(day(1970, 1, 1).days, 0);
    assert_eq!(day(1970, 1, 2).days, 1);
    assert_eq!(day(1969, 12, 31).days, -1);
    assert_eq!(day(2024, 1, 1).days, 19723);
    assert_eq!(day(2024, 3, 1).days - day(2024, 2, 28).days, 2);
    assert_eq!(NaiveDate::from_ymd_opt(2024, 1, 5).unwrap().num_days_from_ce() - 719_163, day(2024, 1, 5).days);
}

#[test]
fn is_day_before_tells_neighbours() {
    assert!(day(2024, 2, 29).is_day_before(&day(2024, 3, 1)));
    assert!(day(2023, 12, 31).is_day_before(&day(2024, 1, 1)));
    assert!(!day(2024, 1, 1).is_day_before(&day(2024, 1, 1)));
    assert!(!day(2024, 1, 1).is_day_before(&day(2024, 1, 3)));
    assert!(!day(2024, 1, 2).is_day_before(&day(2024, 1, 1)));
    assert!(!Date { days: i32::MAX }.is_day_before(&Date { days: i32::MIN }));
}

#[test]
fn new_garden_is_empty() {
    let garden = Garden::new();
    assert_eq!(garden.total_completed(), 0);
    assert_eq!(garden.current_streak, 0);
    assert_eq!(garden.longest_streak, 0);
    assert_eq!(garden.current_streak_start_date, None);
    assert_eq!(garden.longest_streak_end_date, None);
    assert!(garden.current_streak_dates.is_empty());
    assert!(garden.longest_streak_dates.is_empty());
}

#[test]
fn sorted_days_sorts_and_drops_repeats() {
    let list = entries(&[
        day(2024, 1, 5),
        day(2024, 1, 1),
        day(2024, 1, 3),
        day(2024, 1, 1),
        day(2023, 12, 31),
        day(2024, 1, 5),
    ]);
    assert_eq!(
        sorted_days(&list),
        vec![day(2023, 12, 31), day(2024, 1, 1), day(2024, 1, 3), day(2024, 1, 5)]
    );
    assert!(sorted_days(&Vec::new()).is_empty());
}

#[test]
fn streak_with_a_gap_before_today() {
    let mut garden = Garden::new();
    let list = entries(&[day(2024, 1, 1), day(2024, 1, 2), day(2024, 1, 3), day(2024, 1, 5)]);
    garden.update_streaks_at(&list, day(2024, 1, 5));
    assert_eq!(garden.current_streak, 1);
    assert_eq!(garden.current_streak_dates, vec![day(2024, 1, 5)]);
    assert_eq!(garden.longest_streak, 3);
    assert_eq!(garden.longest_streak_dates, vec![day(2024, 1, 1), day(2024, 1, 2), day(2024, 1, 3)]);
    assert_eq!(garden.current_streak_start_date, Some(day(2024, 1, 5)));
    assert_eq!(garden.longest_streak_end_date, Some(day(2024, 1, 3)));
}

#[test]
fn streak_of_yesterday_and_today() {
    let today = day(2024, 6, 10);
    let yesterday = day(2024, 6, 9);
    let mut garden = Garden::new();
    garden.update_streaks_at(&entries(&[yesterday, today]), today);
    assert_eq!(garden.current_streak, 2);
    assert_eq!(garden.current_streak_dates, vec![yesterday, today]);
    assert_eq!(garden.longest_streak, 2);
    assert_eq!(garden.current_streak_start_date, Some(yesterday));
    assert_eq!(garden.longest_streak_end_date, Some(today));
}

#[test]
fn streak_broken_three_days_ago() {
    let today = day(2024, 6, 10);
    let mut garden = Garden::new();
    garden.update_streaks_at(&entries(&[day(2024, 6, 6), day(2024, 6, 7)]), today);
    assert_eq!(garden.current_streak, 0);
    assert!(garden.current_streak_dates.is_empty());
    assert_eq!(garden.current_streak_start_date, None);
    assert_eq!(garden.longest_streak, 2);
    assert_eq!(garden.longest_streak_dates, vec![day(2024, 6, 6), day(2024, 6, 7)]);
}

#[test]
fn streak_of_today_only() {
    let today = day(2024, 6, 10);
    let mut garden = Garden::new();
    garden.update_streaks_at(&entries(&[today]), today);
    assert_eq!(garden.current_streak, 1);
    assert_eq!(garden.current_streak_dates, vec![today]);
    assert_eq!(garden.longest_streak, 1);
    assert_eq!(garden.longest_streak_dates, vec![today]);
}

#[test]
fn streak_that_ended_yesterday_is_still_alive() {
    let today = day(2024, 6, 10);
    let mut garden = Garden::new();
    garden.update_streaks_at(&entries(&[day(2024, 6, 8), day(2024, 6, 9)]), today);
    assert_eq!(garden.current_streak, 2);
    assert_eq!(garden.current_streak_dates, vec![day(2024, 6, 8), day(2024, 6, 9)]);
}

#[test]
fn streak_that_ended_the_day_before_yesterday_is_broken() {
    let today = day(2024, 6, 10);
    let mut garden = Garden::new();
    garden.update_streaks_at(&entries(&[day(2024, 6, 7), day(2024, 6, 8)]), today);
    assert_eq!(garden.current_streak, 0);
    assert!(garden.current_streak_dates.is_empty());
    assert_eq!(garden.longest_streak, 2);
}

#[test]
fn streaks_of_no_sessions_are_cleared() {
    let today = day(2024, 6, 10);
    let mut garden = Garden::new();
    garden.update_streaks_at(&entries(&[day(2024, 6, 9), today]), today);
    assert_eq!(garden.current_streak, 2);
    garden.update_streaks_at(&Vec::new(), today);
    assert_eq!(garden.current_streak, 0);
    assert_eq!(garden.longest_streak, 0);
    assert_eq!(garden.current_streak_start_date, None);
    assert_eq!(garden.longest_streak_end_date, None);
    assert!(garden.current_streak_dates.is_empty());
    assert!(garden.longest_streak_dates.is_empty());
}

#[test]
fn longest_streak_keeps_the_earliest_of_equal_runs() {
    let today = day(2024, 3, 20);
    let list = entries(&[
        day(2024, 3, 1),
        day(2024, 3, 2),
        day(2024, 3, 5),
        day(2024, 3, 6),
        day(2024, 3, 10),
    ]);
    let mut garden = Garden::new();
    garden.update_streaks_at(&list, today);
    assert_eq!(garden.longest_streak, 2);
    assert_eq!(garden.longest_streak_dates, vec![day(2024, 3, 1), day(2024, 3, 2)]);
    assert_eq!(garden.longest_streak_end_date, Some(day(2024, 3, 2)));
    assert_eq!(garden.current_streak, 0);
}

#[test]
fn longest_streak_takes_a_later_run_that_is_longer() {
    let today = day(2024, 3, 9);
    let list = entries(&[
        day(2024, 3, 1),
        day(2024, 3, 2),
        day(2024, 3, 6),
        day(2024, 3, 7),
        day(2024, 3, 8),
        day(2024, 3, 9),
    ]);
    let mut garden = Garden::new();
    garden.update_streaks_at(&list, today);
    assert_eq!(garden.longest_streak, 4);
    assert_eq!(garden.current_streak, 4);
    assert_eq!(garden.current_streak_dates, garden.longest_streak_dates);
    assert_eq!(garden.current_streak_start_date, Some(day(2024, 3, 6)));
    assert_eq!(garden.longest_streak_end_date, Some(day(2024, 3, 9)));
}

#[test]
fn streaks_do_not_depend_on_the_order_of_entries() {
    let today = day(2024, 1, 5);
    let list = vec![
        (day(2024, 1, 5), 2),
        (day(2024, 1, 2), 1),
        (day(2024, 1, 1), 9),
        (day(2024, 1, 3), 1),
        (day(2024, 1, 2), 4),
    ];
    let mut garden = Garden::new();
    garden.update_streaks_at(&list, today);
    assert_eq!(garden.current_streak, 1);
    assert_eq!(garden.longest_streak, 3);
    assert_eq!(garden.longest_streak_dates, vec![day(2024, 1, 1), day(2024, 1, 2), day(2024, 1, 3)]);
}

#[test]
fn streaks_run_over_month_and_year_ends() {
    let today = day(2024, 3, 1);
    let list = entries(&[
        day(2023, 12, 31),
        day(2024, 1, 1),
        day(2024, 2, 28),
        day(2024, 2, 29),
        day(2024, 3, 1),
    ]);
    let mut garden = Garden::new();
    garden.update_streaks_at(&list, today);
    assert_eq!(garden.current_streak, 3);
    assert_eq!(garden.longest_streak, 3);
    assert_eq!(garden.longest_streak_dates, vec![day(2024, 2, 28), day(2024, 2, 29), day(2024, 3, 1)]);
}

#[test]
fn a_last_day_after_today_counts_as_alive() {
    let today = day(2024, 6, 10);
    let mut garden = Garden::new();
    garden.update_streaks_at(&entries(&[day(2024, 6, 11), day(2024, 6, 12)]), today);
    assert_eq!(garden.current_streak, 2);
}

#[test]
fn streaks_at_the_ends_of_the_calendar() {
    let first = Date { days: i32::MIN };
    let last = Date { days: i32::MAX };
    let mut garden = Garden::new();
    garden.update_streaks_at(&entries(&[last, first]), first);
    assert_eq!(garden.current_streak, 1);
    assert_eq!(garden.current_streak_dates, vec![last]);
    assert_eq!(garden.longest_streak, 1);
    assert_eq!(garden.longest_streak_dates, vec![first]);
    garden.update_streaks_at(&entries(&[first]), last);
    assert_eq!(garden.current_streak, 0);
}

#[test]
fn updating_twice_changes_nothing() {
    let today = day(2024, 1, 5);
    let list = entries(&[day(2024, 1, 1), day(2024, 1, 2), day(2024, 1, 3), day(2024, 1, 5)]);
    let mut garden = Garden::new();
    garden.update_streaks_at(&list, today);
    let first = garden.clone();
    garden.update_streaks_at(&list, today);
    assert_eq!(garden.current_streak, first.current_streak);
    assert_eq!(garden.longest_streak, first.longest_streak);
    assert_eq!(garden.current_streak_dates, first.current_streak_dates);
    assert_eq!(garden.longest_streak_dates, first.longest_streak_dates);
    assert_eq!(garden.current_streak_start_date, first.current_streak_start_date);
    assert_eq!(garden.longest_streak_end_date, first.longest_streak_end_date);
}

#[test]
fn current_streak_is_never_longer_than_the_longest() {
    let today = day(2024, 1, 20);
    let all: Vec<Date> = (1..=20).map(|d| day(2024, 1, d)).collect();
    for mask in 0u32..(1 << 10) {
        let chosen: Vec<Date> =
            all.iter().enumerate().filter(|(i, _)| mask & (1 << (i % 10)) != 0 && (i * 7 + mask as usize) % 3 != 0).map(|(_, d)| *d).collect();
        let mut garden = Garden::new();
        garden.update_streaks_at(&entries(&chosen), today);
        assert!(garden.current_streak <= garden.longest_streak);
        assert_eq!(garden.current_streak as usize, garden.current_streak_dates.len());
        assert_eq!(garden.longest_streak as usize, garden.longest_streak_dates.len());
    }
}

#[test]
fn update_streaks_reads_today_from_the_clock() {
    let before = local_today();
    let list = entries(&[days_before(before, 1), before]);
    let mut garden = Garden::new();
    garden.update_streaks(&list);
    let after = local_today();
    if before == after {
        assert_eq!(garden.current_streak, 2);
        assert_eq!(garden.current_streak_dates, vec![days_before(before, 1), before]);
    }
    let old = entries(&[days_before(before, 4), days_before(before, 3)]);
    garden.update_streaks(&old);
    assert_eq!(garden.current_streak, 0);
    assert!(garden.current_streak_dates.is_empty());
    assert_eq!(garden.longest_streak, 2);
}

#[test]
fn completed_plants_are_kept_in_order() {
    let mut garden = Garden::new();
    let full = Plant { stage: PlantStage::FullGrown, growth_points: 10 };
    garden.add_completed_plant_at(full, Timestamp { secs: 100, nanos: 5 });
    garden.add_completed_plant_at(full, Timestamp { secs: 200, nanos: 0 });
    assert_eq!(garden.total_completed(), 2);
    assert_eq!(
        garden.completed_plants,
        vec![
            CompletedPlant { plant: full, completed_at: Timestamp { secs: 100, nanos: 5 } },
            CompletedPlant { plant: full, completed_at: Timestamp { secs: 200, nanos: 0 } },
        ]
    );
    assert_eq!(garden.current_streak, 0);
    assert_eq!(garden.longest_streak, 0);
}

#[test]
fn add_completed_plant_stamps_the_time_of_the_clock() {
    let mut garden = Garden::new();
    let full = Plant { stage: PlantStage::FullGrown, growth_points: 10 };
    let before = Utc::now().timestamp();
    garden.add_completed_plant(full);
    let after = Utc::now().timestamp();
    assert_eq!(garden.total_completed(), 1);
    let stamped = garden.completed_plants[0];
    assert_eq!(stamped.plant, full);
    assert!(before <= stamped.completed_at.secs && stamped.completed_at.secs <= after);
    assert!(stamped.completed_at.nanos < 2_000_000_000);
    assert!(stamped.completed_at.secs > 1_600_000_000);
}

#[test]
fn reset_streak_sets_the_current_streak_to_zero() {
    let today = day(2024, 6, 10);
    let mut garden = Garden::new();
    garden.update_streaks_at(&entries(&[day(2024, 6, 9), today]), today);
    garden.reset_streak();
    assert_eq!(garden.current_streak, 0);
    assert_eq!(garden.longest_streak, 2);
    assert_eq!(garden.current_streak_dates, vec![day(2024, 6, 9), today]);
}

#[test]
fn dates_agree_with_the_calendar() {
    let mut date = NaiveDate::from_ymd_opt(2023, 12, 25).unwrap();
    for _ in 0..80 {
        let next = date.succ_opt().unwrap();
        let a = Date { days: date.to_epoch_days() };
        let b = Date { days: next.to_epoch_days() };
        assert!(a.is_day_before(&b));
        assert!(!b.is_day_before(&a));
        assert_eq!(b.days, (date + chrono::Duration::days(1)).to_epoch_days());
        assert_eq!(NaiveDate::from_epoch_days(a.days), Some(date));
        date = next;
    }
}

#[test]
fn dates_order_as_the_calendar_does() {
    let dates = [
        NaiveDate::from_ymd_opt(1969, 7, 20).unwrap(),
        NaiveDate::from_ymd_opt(1999, 12, 31).unwrap(),
        NaiveDate::from_ymd_opt(2000, 1, 1).unwrap(),
        NaiveDate::from_ymd_opt(2024, 2, 29).unwrap(),
        NaiveDate::MIN,
        NaiveDate::MAX,
    ];
    for a in dates {
        for b in dates {
            assert_eq!(a < b, a.to_epoch_days() < b.to_epoch_days());
            assert_eq!(a == b, a.to_epoch_days() == b.to_epoch_days());
        }
    }
}

#[test]
fn streaks_agree_with_a_walk_over_the_calendar() {
    let today = NaiveDate::from_ymd_opt(2024, 3, 3).unwrap();
    let active = [
        NaiveDate::from_ymd_opt(2024, 3, 3).unwrap(),
        NaiveDate::from_ymd_opt(2024, 2, 27).unwrap(),
        NaiveDate::from_ymd_opt(2024, 3, 1).unwrap(),
        NaiveDate::from_ymd_opt(2024, 2, 29).unwrap(),
        NaiveDate::from_ymd_opt(2024, 3, 2).unwrap(),
        NaiveDate::from_ymd_opt(2024, 2, 20).unwrap(),
        NaiveDate::from_ymd_opt(2024, 2, 28).unwrap(),
    ];
    let list: Vec<(Date, u32)> = active.iter().map(|d| (day(d.year(), d.month(), d.day()), 1)).collect();
    let mut garden = Garden::new();
    garden.update_streaks_at(&list, day(today.year(), today.month(), today.day()));
    assert_eq!(garden.current_streak, 6);
    assert_eq!(garden.longest_streak, 6);
    let shown: Vec<NaiveDate> =
        garden.current_streak_dates.iter().map(|d| NaiveDate::from_epoch_days(d.days).unwrap()).collect();
    let mut expected = Vec::new();
    let mut date = NaiveDate::from_ymd_opt(2024, 2, 27).unwrap();
    while date <= today {
        expected.push(date);
        date = date.succ_opt().unwrap();
    }
    assert_eq!(shown, expected);
}
