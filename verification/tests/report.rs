use focus_garden::clock::{Date, Timestamp};
use focus_garden::report::{
    latest_sessions, most_minutes, newest, next_ten, sort_by_date, widened, TOP_OF_SCALE,
};
use focus_garden::storage::SessionLog;
use focus_garden::timer::SessionType;

fn d(days: i32) -> Date {
    Date { days }
}

fn session(kind: SessionType, n: u64) -> SessionLog {
    SessionLog { session_type: kind, duration: n, end_time: Timestamp { secs: n as i64, nanos: 0 } }
}

#[test]
fn next_ten_rounds_up_to_tens() {
    assert_eq!(next_ten(0), 0);
    assert_eq!(next_ten(1), 10);
    assert_eq!(next_ten(9), 10);
    assert_eq!(next_ten(10), 10);
    assert_eq!(next_ten(11), 20);
    assert_eq!(next_ten(25), 30);
    assert_eq!(next_ten(1_000_001), 1_000_010);
}

#[test]
fn next_ten_stops_at_the_top_of_the_scale() {
    assert_eq!(TOP_OF_SCALE, u64::MAX / 10 * 10);
    assert_eq!(next_ten(TOP_OF_SCALE), TOP_OF_SCALE);
    assert_eq!(next_ten(TOP_OF_SCALE - 1), TOP_OF_SCALE);
    assert_eq!(next_ten(TOP_OF_SCALE - 9), TOP_OF_SCALE);
    assert_eq!(next_ten(TOP_OF_SCALE - 10), TOP_OF_SCALE - 10);
    assert_eq!(next_ten(TOP_OF_SCALE + 1), TOP_OF_SCALE);
    assert_eq!(next_ten(u64::MAX), TOP_OF_SCALE);
}

#[test]
fn most_minutes_finds_the_largest() {
    assert_eq!(most_minutes(&Vec::new()), 0);
    assert_eq!(most_minutes(&vec![(d(1), 0)]), 0);
    assert_eq!(most_minutes(&vec![(d(1), 30), (d(2), 25), (d(3), 300)]), 300);
    assert_eq!(most_minutes(&vec![(d(5), 7), (d(2), 7)]), 7);
    assert_eq!(most_minutes(&vec![(d(1), u64::MAX), (d(2), 1)]), u64::MAX);
}

#[test]
fn sort_by_date_puts_entries_in_calendar_order() {
    let list = vec![(d(5), 50u64), (d(-3), 1), (d(4), 40), (d(0), 7)];
    assert_eq!(sort_by_date(&list), vec![(d(-3), 1), (d(0), 7), (d(4), 40), (d(5), 50)]);
    let sorted = vec![(d(1), 1u32), (d(2), 2), (d(3), 3)];
    assert_eq!(sort_by_date(&sorted), sorted);
    let empty: Vec<(Date, u32)> = Vec::new();
    assert!(sort_by_date(&empty).is_empty());
}

#[test]
fn sort_by_date_keeps_the_order_of_entries_of_one_date() {
    let list = vec![(d(2), 1u32), (d(1), 2), (d(2), 3), (d(1), 4), (d(2), 5)];
    assert_eq!(sort_by_date(&list), vec![(d(1), 2), (d(1), 4), (d(2), 1), (d(2), 3), (d(2), 5)]);
}

#[test]
fn widened_keeps_dates_and_values() {
    assert_eq!(
        widened(&vec![(d(1), 3), (d(2), u32::MAX)]),
        vec![(d(1), 3u64), (d(2), 4_294_967_295u64)]
    );
    assert!(widened(&Vec::new()).is_empty());
}

#[test]
fn newest_gives_the_last_values_first() {
    let list = vec![1, 2, 3, 4, 5];
    assert_eq!(newest(&list, 3), vec![5, 4, 3]);
    assert_eq!(newest(&list, 5), vec![5, 4, 3, 2, 1]);
    assert_eq!(newest(&list, 9), vec![5, 4, 3, 2, 1]);
    assert!(newest(&list, 0).is_empty());
    let empty: Vec<u8> = Vec::new();
    assert!(newest(&empty, 4).is_empty());
}

#[test]
fn latest_sessions_picks_a_kind() {
    let log = vec![
        session(SessionType::Focus, 1),
        session(SessionType::ShortBreak, 2),
        session(SessionType::Focus, 3),
        session(SessionType::LongBreak, 4),
        session(SessionType::Focus, 5),
        session(SessionType::ShortBreak, 6),
    ];
    assert_eq!(
        latest_sessions(&log, true, 10),
        vec![session(SessionType::Focus, 5), session(SessionType::Focus, 3), session(SessionType::Focus, 1)]
    );
    assert_eq!(
        latest_sessions(&log, false, 10),
        vec![
            session(SessionType::ShortBreak, 6),
            session(SessionType::LongBreak, 4),
            session(SessionType::ShortBreak, 2),
        ]
    );
    assert_eq!(latest_sessions(&log, true, 2), vec![session(SessionType::Focus, 5), session(SessionType::Focus, 3)]);
    assert_eq!(latest_sessions(&log, false, 1), vec![session(SessionType::ShortBreak, 6)]);
    assert!(latest_sessions(&log, true, 0).is_empty());
    assert!(latest_sessions(&Vec::new(), true, 10).is_empty());
    let breaks = vec![session(SessionType::ShortBreak, 1)];
    assert!(latest_sessions(&breaks, true, 10).is_empty());
}
