//! What the statistics page shows: the daily totals in the order of the
//! calendar, the top of the scale of a chart, and the newest sessions and
//! plants.

use vstd::prelude::*;
use crate::clock::Date;
use crate::daily::minutes_within;
use crate::storage::SessionLog;
use crate::timer::SessionType;

verus! {

/// The largest multiple of ten that a scale can have.
pub const TOP_OF_SCALE: u64 = 18_446_744_073_709_551_610;

/// The top of the scale for a chart whose largest value is `value`: the
/// least multiple of ten that is not below it, as far as there is one.
pub open spec fn scale_top(value: nat) -> nat {
    if value > TOP_OF_SCALE {
        TOP_OF_SCALE as nat
    } else {
        ((value + 9) / 10 * 10) as nat
    }
}

/// The largest number of minutes of a list of daily totals; zero for an
/// empty list.
pub open spec fn largest_minutes(entries: Seq<(Date, u64)>) -> nat
    decreases entries.len(),
{
    if entries.len() == 0 {
        0
    } else if entries.last().1 > largest_minutes(entries.drop_last()) {
        entries.last().1 as nat
    } else {
        largest_minutes(entries.drop_last())
    }
}

/// The entries stand in the order of their dates.
pub open spec fn in_date_order<V>(entries: Seq<(Date, V)>) -> bool {
    forall|i: int, j: int|
        0 <= i < j < entries.len() ==> (#[trigger] entries[i]).0.days <= (
        #[trigger] entries[j]).0.days
}

/// A list in the order of its dates with one more entry put in: behind
/// every entry of its date or of an earlier one.
pub open spec fn placed<V>(sorted: Seq<(Date, V)>, entry: (Date, V)) -> Seq<(Date, V)>
    decreases sorted.len(),
{
    if sorted.len() == 0 {
        seq![entry]
    } else if sorted.last().0.days <= entry.0.days {
        sorted.push(entry)
    } else {
        placed(sorted.drop_last(), entry).push(sorted.last())
    }
}

/// The entries of a list in the order of their dates. Entries of one date
/// keep the order they had.
pub open spec fn by_date<V>(entries: Seq<(Date, V)>) -> Seq<(Date, V)>
    decreases entries.len(),
{
    if entries.len() == 0 {
        Seq::empty()
    } else {
        placed(by_date(entries.drop_last()), entries.last())
    }
}

/// A list of counts with every count as a wide number.
pub open spec fn widened_counts(entries: Seq<(Date, u32)>) -> Seq<(Date, u64)> {
    Seq::new(entries.len(), |i: int| (entries[i].0, entries[i].1 as u64))
}

/// The last `limit` values of a list, the newest first; all of them if the
/// list is shorter.
pub open spec fn newest_first<T>(list: Seq<T>, limit: nat) -> Seq<T> {
    Seq::new(
        if list.len() < limit {
            list.len()
        } else {
            limit
        },
        |i: int| list[list.len() - 1 - i],
    )
}

/// Whether a session of the log is of the kind asked for: a focus session
/// if `focus` says so, a break of either kind if not.
pub open spec fn is_kind(entry: SessionLog, focus: bool) -> bool {
    (entry.session_type == SessionType::Focus) == focus
}

/// The last `limit` sessions of a kind in the log, the newest first; all of
/// that kind if there are fewer.
pub open spec fn newest_of_kind(log: Seq<SessionLog>, focus: bool, limit: nat) -> Seq<SessionLog>
    decreases log.len(),
{
    if log.len() == 0 || limit == 0 {
        Seq::empty()
    } else if is_kind(log.last(), focus) {
        seq![log.last()] + newest_of_kind(log.drop_last(), focus, (limit - 1) as nat)
    } else {
        newest_of_kind(log.drop_last(), focus, limit)
    }
}

/// The top of the scale for a chart whose largest value is `value`: the
/// least multiple of ten that is not below it. Past the largest multiple of
/// ten that there is, it is that multiple.
pub fn next_ten(value: u64) -> (top: u64)
    ensures
        top == scale_top(value as nat),
        top % 10 == 0,
        value <= TOP_OF_SCALE ==> value <= top < value + 10,
        value > TOP_OF_SCALE ==> top == TOP_OF_SCALE,
{
    if value > TOP_OF_SCALE {
        TOP_OF_SCALE
    } else {
        let tens: u64 = if value % 10 == 0 {
            value / 10
        } else {
            value / 10 + 1
        };
        assert(tens == (value + 9) / 10);
        assert((tens * 10) % 10 == 0);
        tens * 10
    }
}

/// The largest number of minutes of a list of daily totals; zero for an
/// empty list.
pub fn most_minutes(entries: &Vec<(Date, u64)>) -> (most: u64)
    ensures
        most == largest_minutes(entries@),
        minutes_within(entries@, most as nat),
        most == 0 || exists|i: int| 0 <= i < entries@.len() && (#[trigger] entries@[i]).1 == most,
{
    let mut most: u64 = 0;
    let mut i: usize = 0;
    let ghost mut at: int = -1;
    while i < entries.len()
        invariant
            i <= entries@.len(),
            most == largest_minutes(entries@.subrange(0, i as int)),
            forall|j: int| 0 <= j < i ==> (#[trigger] entries@[j]).1 <= most,
            most == 0 || (0 <= at < i && entries@[at].1 == most),
        decreases entries@.len() - i,
    {
        proof {
            let upto = entries@.subrange(0, i + 1);
            assert(upto.drop_last() == entries@.subrange(0, i as int));
            assert(upto.last() == entries@[i as int]);
        }
        if entries[i].1 > most {
            most = entries[i].1;
            proof {
                at = i as int;
            }
        }
        i += 1;
    }
    assert(entries@.subrange(0, entries@.len() as int) == entries@);
    most
}

/// The place found by going down from the end of a list in date order past
/// every entry of a later date is the place at which `placed` puts the
/// entry.
proof fn lemma_placed_at<V>(sorted: Seq<(Date, V)>, entry: (Date, V), k: int)
    requires
        0 <= k <= sorted.len(),
        forall|j: int| k <= j < sorted.len() ==> (#[trigger] sorted[j]).0.days > entry.0.days,
        k == 0 || sorted[k - 1].0.days <= entry.0.days,
    ensures
        placed(sorted, entry) == sorted.insert(k, entry),
    decreases sorted.len() - k,
{
    if k == sorted.len() {
        if sorted.len() == 0 {
            assert(seq![entry] =~= sorted.insert(0, entry));
        } else {
            assert(sorted.push(entry) =~= sorted.insert(k, entry));
        }
    } else {
        let front = sorted.drop_last();
        assert(sorted[sorted.len() - 1].0.days > entry.0.days);
        assert forall|j: int| k <= j < front.len() implies (#[trigger] front[j]).0.days
            > entry.0.days by {
            assert(front[j] == sorted[j]);
        }
        lemma_placed_at(front, entry, k);
        assert(front.insert(k, entry).push(sorted.last()) =~= sorted.insert(k, entry));
    }
}

/// Puts an entry into a list in date order: behind every entry of its date
/// or of an earlier one.
fn place<V: Copy>(sorted: &mut Vec<(Date, V)>, entry: (Date, V))
    ensures
        final(sorted)@ == placed(old(sorted)@, entry),
{
    let mut k: usize = sorted.len();
    while k > 0 && sorted[k - 1].0.days > entry.0.days
        invariant
            k <= sorted@.len(),
            sorted@ == old(sorted)@,
            forall|j: int| k <= j < sorted@.len() ==> (#[trigger] sorted@[j]).0.days
                > entry.0.days,
        decreases k,
    {
        k -= 1;
    }
    proof {
        lemma_placed_at(sorted@, entry, k as int);
    }
    sorted.insert(k, entry);
}

/// The entries of a list in the order of their dates. Entries of one date
/// keep the order they had.
pub fn sort_by_date<V: Copy>(entries: &Vec<(Date, V)>) -> (sorted: Vec<(Date, V)>)
    ensures
        sorted@ == by_date(entries@),
        in_date_order(sorted@),
        sorted@.to_multiset() == entries@.to_multiset(),
        sorted@.len() == entries@.len(),
{
    let mut sorted: Vec<(Date, V)> = Vec::new();
    let mut i: usize = 0;
    while i < entries.len()
        invariant
            i <= entries@.len(),
            sorted@ == by_date(entries@.subrange(0, i as int)),
        decreases entries@.len() - i,
    {
        proof {
            let upto = entries@.subrange(0, i + 1);
            assert(upto.drop_last() == entries@.subrange(0, i as int));
            assert(upto.last() == entries@[i as int]);
        }
        place(&mut sorted, entries[i]);
        i += 1;
    }
    proof {
        assert(entries@.subrange(0, entries@.len() as int) == entries@);
        lemma_by_date(entries@);
    }
    sorted
}

/// A list of counts with every count as a wide number.
pub fn widened(entries: &Vec<(Date, u32)>) -> (wide: Vec<(Date, u64)>)
    ensures
        wide@ == widened_counts(entries@),
{
    let mut wide: Vec<(Date, u64)> = Vec::new();
    let mut i: usize = 0;
    while i < entries.len()
        invariant
            i <= entries@.len(),
            wide@.len() == i,
            forall|j: int|
                0 <= j < i ==> (#[trigger] wide@[j]) == (entries@[j].0, entries@[j].1 as u64),
        decreases entries@.len() - i,
    {
        let entry = entries[i];
        wide.push((entry.0, entry.1 as u64));
        i += 1;
    }
    assert(wide@ =~= widened_counts(entries@));
    wide
}

/// The last `limit` values of a list, the newest first; all of them if the
/// list is shorter.
pub fn newest<T: Copy>(list: &Vec<T>, limit: usize) -> (out: Vec<T>)
    ensures
        out@ == newest_first(list@, limit as nat),
{
    let mut out: Vec<T> = Vec::new();
    let mut k: usize = list.len();
    while k > 0 && out.len() < limit
        invariant
            k <= list@.len(),
            out@.len() == list@.len() - k,
            out@.len() <= limit,
            forall|j: int| 0 <= j < out@.len() ==> (#[trigger] out@[j]) == list@[list@.len() - 1 - j],
        decreases k,
    {
        k -= 1;
        out.push(list[k]);
    }
    assert(out@ =~= newest_first(list@, limit as nat));
    out
}

/// The last `limit` sessions of a kind in the log, the newest first; all of
/// that kind if there are fewer. The kind is focus sessions if `focus` says
/// so, breaks of either kind if not.
pub fn latest_sessions(log: &Vec<SessionLog>, focus: bool, limit: usize) -> (out: Vec<SessionLog>)
    ensures
        out@ == newest_of_kind(log@, focus, limit as nat),
        out@.len() <= limit,
        forall|i: int| 0 <= i < out@.len() ==> is_kind(#[trigger] out@[i], focus),
{
    let mut out: Vec<SessionLog> = Vec::new();
    let mut k: usize = log.len();
    proof {
        assert(log@.subrange(0, k as int) == log@);
        assert(out@ + newest_of_kind(log@, focus, limit as nat) =~= newest_of_kind(
            log@,
            focus,
            limit as nat,
        ));
    }
    while k > 0 && out.len() < limit
        invariant
            k <= log@.len(),
            out@.len() <= limit,
            forall|i: int| 0 <= i < out@.len() ==> is_kind(#[trigger] out@[i], focus),
            newest_of_kind(log@, focus, limit as nat) == out@ + newest_of_kind(
                log@.subrange(0, k as int),
                focus,
                (limit - out@.len()) as nat,
            ),
        decreases k,
    {
        let ghost before = log@.subrange(0, k as int);
        let ghost found = out@;
        k -= 1;
        let entry = log[k];
        proof {
            assert(before.drop_last() == log@.subrange(0, k as int));
            assert(before.last() == entry);
        }
        if (entry.session_type == SessionType::Focus) == focus {
            out.push(entry);
            proof {
                let rest = newest_of_kind(
                    log@.subrange(0, k as int),
                    focus,
                    (limit - out@.len()) as nat,
                );
                assert(found + (seq![entry] + rest) =~= out@ + rest);
            }
        }
    }
    proof {
        let rest = newest_of_kind(
            log@.subrange(0, k as int),
            focus,
            (limit - out@.len()) as nat,
        );
        assert(rest.len() == 0);
        assert(out@ + rest =~= out@);
    }
    out
}

/// Putting an entry into a list in date order keeps the order and adds
/// this entry to the entries of the list and no other.
pub proof fn lemma_placed<V>(sorted: Seq<(Date, V)>, entry: (Date, V))
    requires
        in_date_order(sorted),
    ensures
        in_date_order(placed(sorted, entry)),
        placed(sorted, entry).to_multiset() == sorted.to_multiset().insert(entry),
        placed(sorted, entry).len() == sorted.len() + 1,
    decreases sorted.len(),
{
    let after = placed(sorted, entry);
    if sorted.len() == 0 {
        assert(after =~= sorted.push(entry));
        vstd::seq_lib::to_multiset_build(sorted, entry);
    } else if sorted.last().0.days <= entry.0.days {
        vstd::seq_lib::to_multiset_build(sorted, entry);
        assert forall|i: int, j: int| 0 <= i < j < after.len() implies (#[trigger] after[i]).0.days
            <= (#[trigger] after[j]).0.days by {
            if j == sorted.len() {
                assert(after[i] == sorted[i]);
                if i < sorted.len() - 1 {
                    assert(sorted[i].0.days <= sorted[sorted.len() - 1].0.days);
                }
            } else {
                assert(after[i] == sorted[i] && after[j] == sorted[j]);
            }
        }
    } else {
        let front = sorted.drop_last();
        let last = sorted.last();
        let mid = placed(front, entry);
        assert(in_date_order(front)) by {
            assert forall|i: int, j: int| 0 <= i < j < front.len() implies (
            #[trigger] front[i]).0.days <= (#[trigger] front[j]).0.days by {
                assert(front[i] == sorted[i] && front[j] == sorted[j]);
            }
        }
        lemma_placed(front, entry);
        assert(sorted =~= front.push(last));
        vstd::seq_lib::to_multiset_build(front, last);
        vstd::seq_lib::to_multiset_build(mid, last);
        assert(after.to_multiset() =~= sorted.to_multiset().insert(entry));
        assert forall|i: int| 0 <= i < mid.len() implies (#[trigger] mid[i]).0.days
            <= last.0.days by {
            lemma_placed_holds(front, entry, i);
            if mid[i] != entry {
                let k = choose|k: int| 0 <= k < front.len() && front[k] == mid[i];
                assert(sorted[k] == mid[i]);
                assert(sorted[k].0.days <= sorted[sorted.len() - 1].0.days);
            }
        }
        assert forall|i: int, j: int| 0 <= i < j < after.len() implies (#[trigger] after[i]).0.days
            <= (#[trigger] after[j]).0.days by {
            if j == mid.len() {
                assert(after[i] == mid[i]);
            } else {
                assert(after[i] == mid[i] && after[j] == mid[j]);
            }
        }
    }
}

/// Every entry of a list with an entry put in is that entry or one of the
/// list.
proof fn lemma_placed_holds<V>(sorted: Seq<(Date, V)>, entry: (Date, V), i: int)
    requires
        0 <= i < placed(sorted, entry).len(),
    ensures
        placed(sorted, entry)[i] == entry || exists|k: int|
            0 <= k < sorted.len() && sorted[k] == placed(sorted, entry)[i],
    decreases sorted.len(),
{
    let after = placed(sorted, entry);
    if sorted.len() == 0 {
    } else if sorted.last().0.days <= entry.0.days {
        if i < sorted.len() {
            assert(sorted[i] == after[i]);
        }
    } else {
        let front = sorted.drop_last();
        let mid = placed(front, entry);
        if i < mid.len() {
            lemma_placed_holds(front, entry, i);
            if mid[i] != entry {
                let k = choose|k: int| 0 <= k < front.len() && front[k] == mid[i];
                assert(sorted[k] == after[i]);
            }
        } else {
            assert(sorted[sorted.len() - 1] == after[i]);
        }
    }
}

/// The entries by date are the entries of the list, each as often as the
/// list has it, in the order of their dates.
pub proof fn lemma_by_date<V>(entries: Seq<(Date, V)>)
    ensures
        in_date_order(by_date(entries)),
        by_date(entries).to_multiset() == entries.to_multiset(),
        by_date(entries).len() == entries.len(),
    decreases entries.len(),
{
    if entries.len() == 0 {
        assert(by_date(entries) =~= entries);
    } else {
        let front = entries.drop_last();
        lemma_by_date(front);
        lemma_placed(by_date(front), entries.last());
        assert(entries =~= front.push(entries.last()));
        vstd::seq_lib::to_multiset_build(front, entries.last());
    }
}

} // verus!
