//! Lists of daily totals: for each date on which something was booked, one
//! entry with the date and the total of that day.

use vstd::prelude::*;
use crate::clock::Date;

verus! {

/// The place of the first entry for `date` in a list of daily totals; the
/// length of the list if it has none.
pub open spec fn position_of<V>(entries: Seq<(Date, V)>, date: Date) -> int
    decreases entries.len(),
{
    if entries.len() == 0 {
        0
    } else if entries[0].0 == date {
        0
    } else {
        1 + position_of(entries.drop_first(), date)
    }
}

/// No date has two entries.
pub open spec fn one_entry_per_date<V>(entries: Seq<(Date, V)>) -> bool {
    forall|i: int, j: int|
        0 <= i < j < entries.len() ==> (#[trigger] entries[i]).0 != (#[trigger] entries[j]).0
}

/// The total booked for `date`, if the list has an entry for it.
pub open spec fn entry_of<V>(entries: Seq<(Date, V)>, date: Date) -> Option<V> {
    let i = position_of(entries, date);
    if i < entries.len() {
        Some(entries[i].1)
    } else {
        None
    }
}

/// The list with `total` as the total of `date`: in the entry of that date,
/// or in a new entry at the end if there was none.
pub open spec fn with_entry<V>(entries: Seq<(Date, V)>, date: Date, total: V) -> Seq<(Date, V)> {
    let i = position_of(entries, date);
    if i < entries.len() {
        entries.update(i, (date, total))
    } else {
        entries.push((date, total))
    }
}

/// The count booked for `date`; zero if the list has no entry for it.
pub open spec fn count_of(entries: Seq<(Date, u32)>, date: Date) -> nat {
    match entry_of(entries, date) {
        Some(count) => count as nat,
        None => 0,
    }
}

/// The minutes booked for `date`; zero if the list has no entry for it.
pub open spec fn minutes_of(entries: Seq<(Date, u64)>, date: Date) -> nat {
    match entry_of(entries, date) {
        Some(minutes) => minutes as nat,
        None => 0,
    }
}

/// The list after `by` is booked for `date`: added to the entry of that
/// date, or put in a new entry at the end if there was none.
pub open spec fn with_count(entries: Seq<(Date, u32)>, date: Date, by: nat) -> Seq<(Date, u32)> {
    with_entry(entries, date, (count_of(entries, date) + by) as u32)
}

/// The list after `by` minutes are booked for `date`: added to the entry of
/// that date, or put in a new entry at the end if there was none.
pub open spec fn with_minutes(entries: Seq<(Date, u64)>, date: Date, by: nat) -> Seq<(Date, u64)> {
    with_entry(entries, date, (minutes_of(entries, date) + by) as u64)
}

/// Every count of the list lies below `limit`.
pub open spec fn counts_below(entries: Seq<(Date, u32)>, limit: nat) -> bool {
    forall|i: int| 0 <= i < entries.len() ==> (#[trigger] entries[i]).1 < limit
}

/// Every number of minutes of the list is at most `limit`.
pub open spec fn minutes_within(entries: Seq<(Date, u64)>, limit: nat) -> bool {
    forall|i: int| 0 <= i < entries.len() ==> (#[trigger] entries[i]).1 <= limit
}

/// `position_of` is the first place at which the date stands: no entry
/// before it has the date, and the entry at it has, unless it is the length.
pub proof fn lemma_position_of<V>(entries: Seq<(Date, V)>, date: Date)
    ensures
        0 <= position_of(entries, date) <= entries.len(),
        forall|j: int| 0 <= j < position_of(entries, date) ==> (#[trigger] entries[j]).0 != date,
        position_of(entries, date) < entries.len() ==> entries[position_of(entries, date)].0
            == date,
    decreases entries.len(),
{
    if entries.len() > 0 && entries[0].0 != date {
        let rest = entries.drop_first();
        lemma_position_of(rest, date);
        assert forall|j: int| 0 <= j < position_of(entries, date) implies (#[trigger] entries[j]).0
            != date by {
            if j > 0 {
                assert(rest[j - 1] == entries[j]);
            }
        }
    }
}

/// The first place at which the date stands is `position_of`.
pub proof fn lemma_position_found<V>(entries: Seq<(Date, V)>, date: Date, i: int)
    requires
        0 <= i <= entries.len(),
        forall|j: int| 0 <= j < i ==> (#[trigger] entries[j]).0 != date,
        i < entries.len() ==> entries[i].0 == date,
    ensures
        position_of(entries, date) == i,
    decreases entries.len(),
{
    if entries.len() > 0 && i > 0 {
        let rest = entries.drop_first();
        assert(entries[0].0 != date);
        assert forall|j: int| 0 <= j < i - 1 implies (#[trigger] rest[j]).0 != date by {
            assert(rest[j] == entries[j + 1]);
        }
        lemma_position_found(rest, date, i - 1);
    }
}

/// In a list with one entry per date, every entry is the one that is found
/// for its date.
pub proof fn lemma_entry_found<V>(entries: Seq<(Date, V)>, i: int)
    requires
        one_entry_per_date(entries),
        0 <= i < entries.len(),
    ensures
        position_of(entries, entries[i].0) == i,
        entry_of(entries, entries[i].0) == Some(entries[i].1),
{
    assert forall|j: int| 0 <= j < i implies (#[trigger] entries[j]).0 != entries[i].0 by {}
    lemma_position_found(entries, entries[i].0, i);
}

/// Setting the total of a date sets it for that date and leaves every other
/// date as it was. A list with one entry per date stays so, and gets an
/// entry more only if the date had none.
pub proof fn lemma_with_entry<V>(entries: Seq<(Date, V)>, date: Date, total: V, other: Date)
    ensures
        entry_of(with_entry(entries, date, total), date) == Some(total),
        other != date ==> entry_of(with_entry(entries, date, total), other) == entry_of(
            entries,
            other,
        ),
        one_entry_per_date(entries) ==> one_entry_per_date(with_entry(entries, date, total)),
        with_entry(entries, date, total).len() == if entry_of(entries, date) is Some {
            entries.len()
        } else {
            entries.len() + 1
        },
{
    let after = with_entry(entries, date, total);
    let i = position_of(entries, date);
    let k = position_of(entries, other);
    lemma_position_of(entries, date);
    lemma_position_of(entries, other);
    assert forall|j: int| 0 <= j < after.len() implies (#[trigger] after[j]).0 == if j
        < entries.len() {
        entries[j].0
    } else {
        date
    } by {}
    assert forall|j: int| 0 <= j < i implies (#[trigger] after[j]).0 != date by {
        assert(after[j].0 == entries[j].0);
    }
    lemma_position_found(after, date, i);
    if other != date {
        assert forall|j: int| 0 <= j < k implies (#[trigger] after[j]).0 != other by {
            assert(after[j].0 == entries[j].0);
        }
        if k < entries.len() {
            assert(after[k] == entries[k]);
            lemma_position_found(after, other, k);
        } else {
            assert forall|j: int| 0 <= j < after.len() implies (#[trigger] after[j]).0
                != other by {
                if j < entries.len() {
                    assert(after[j].0 == entries[j].0);
                }
            }
            lemma_position_found(after, other, after.len() as int);
        }
    }
    if one_entry_per_date(entries) {
        assert forall|a: int, b: int| 0 <= a < b < after.len() implies (#[trigger] after[a]).0 != (
        #[trigger] after[b]).0 by {
            assert(after[a].0 == entries[a].0);
            if b < entries.len() {
                assert(after[b].0 == entries[b].0);
            }
        }
    }
}

/// Booking for a date adds to what is booked for that date and leaves every
/// other date as it was. A list with one entry per date stays so, and gets
/// an entry more only if the date had none.
pub proof fn lemma_with_count(entries: Seq<(Date, u32)>, date: Date, by: nat, other: Date)
    requires
        count_of(entries, date) + by <= u32::MAX,
    ensures
        count_of(with_count(entries, date, by), date) == count_of(entries, date) + by,
        other != date ==> count_of(with_count(entries, date, by), other) == count_of(
            entries,
            other,
        ),
        one_entry_per_date(entries) ==> one_entry_per_date(with_count(entries, date, by)),
        with_count(entries, date, by).len() == if entry_of(entries, date) is Some {
            entries.len()
        } else {
            entries.len() + 1
        },
{
    lemma_with_entry(entries, date, (count_of(entries, date) + by) as u32, other);
}

/// Booking minutes for a date adds to what is booked for that date and
/// leaves every other date as it was. A list with one entry per date stays
/// so, and gets an entry more only if the date had none.
pub proof fn lemma_with_minutes(entries: Seq<(Date, u64)>, date: Date, by: nat, other: Date)
    requires
        minutes_of(entries, date) + by <= u64::MAX,
    ensures
        minutes_of(with_minutes(entries, date, by), date) == minutes_of(entries, date) + by,
        other != date ==> minutes_of(with_minutes(entries, date, by), other) == minutes_of(
            entries,
            other,
        ),
        one_entry_per_date(entries) ==> one_entry_per_date(with_minutes(entries, date, by)),
        with_minutes(entries, date, by).len() == if entry_of(entries, date) is Some {
            entries.len()
        } else {
            entries.len() + 1
        },
{
    lemma_with_entry(entries, date, (minutes_of(entries, date) + by) as u64, other);
}

/// What is booked for a date is one of the counts of the list, or nothing.
pub proof fn lemma_count_of_below(entries: Seq<(Date, u32)>, limit: nat, date: Date)
    requires
        counts_below(entries, limit),
        limit > 0,
    ensures
        count_of(entries, date) < limit,
{
    lemma_position_of(entries, date);
}

/// What is booked for a date is one of the numbers of minutes of the list,
/// or nothing.
pub proof fn lemma_minutes_of_within(entries: Seq<(Date, u64)>, limit: nat, date: Date)
    requires
        minutes_within(entries, limit),
    ensures
        minutes_of(entries, date) <= limit,
{
    lemma_position_of(entries, date);
}

/// The place of the first entry for `date`; the length of the list if it
/// has none.
pub fn find_date<V: Copy>(entries: &Vec<(Date, V)>, date: Date) -> (i: usize)
    ensures
        i == position_of(entries@, date),
        i <= entries@.len(),
        i < entries@.len() <==> entry_of(entries@, date) is Some,
{
    let mut i: usize = 0;
    while i < entries.len()
        invariant
            i <= entries@.len(),
            forall|j: int| 0 <= j < i ==> (#[trigger] entries@[j]).0 != date,
        decreases entries@.len() - i,
    {
        if entries[i].0 == date {
            proof {
                lemma_position_found(entries@, date, i as int);
            }
            return i;
        }
        i += 1;
    }
    proof {
        lemma_position_found(entries@, date, i as int);
    }
    i
}

/// The count booked for `date`; zero if the list has no entry for it.
pub fn count_on(entries: &Vec<(Date, u32)>, date: Date) -> (n: u32)
    ensures
        n == count_of(entries@, date),
{
    let i = find_date(entries, date);
    if i < entries.len() {
        entries[i].1
    } else {
        0
    }
}

/// The minutes booked for `date`; zero if the list has no entry for it.
pub fn minutes_on(entries: &Vec<(Date, u64)>, date: Date) -> (n: u64)
    ensures
        n == minutes_of(entries@, date),
{
    let i = find_date(entries, date);
    if i < entries.len() {
        entries[i].1
    } else {
        0
    }
}

/// Books `by` for `date`: adds it to the entry of that date, or puts a new
/// entry at the end if there is none.
pub fn add_count(entries: &mut Vec<(Date, u32)>, date: Date, by: u32)
    requires
        count_of(old(entries)@, date) + by <= u32::MAX,
    ensures
        final(entries)@ == with_count(old(entries)@, date, by as nat),
{
    let i = find_date(entries, date);
    if i < entries.len() {
        let entry = entries[i];
        entries.set(i, (date, entry.1 + by));
    } else {
        entries.push((date, by));
    }
}

/// Books `by` minutes for `date`: adds them to the entry of that date, or
/// puts a new entry at the end if there is none.
pub fn add_minutes(entries: &mut Vec<(Date, u64)>, date: Date, by: u64)
    requires
        minutes_of(old(entries)@, date) + by <= u64::MAX,
    ensures
        final(entries)@ == with_minutes(old(entries)@, date, by as nat),
{
    let i = find_date(entries, date);
    if i < entries.len() {
        let entry = entries[i];
        entries.set(i, (date, entry.1 + by));
    } else {
        entries.push((date, by));
    }
}

/// Whether every count of the list lies below `limit`.
pub fn all_counts_below(entries: &Vec<(Date, u32)>, limit: u32) -> (b: bool)
    ensures
        b == counts_below(entries@, limit as nat),
{
    let mut i: usize = 0;
    while i < entries.len()
        invariant
            i <= entries@.len(),
            forall|j: int| 0 <= j < i ==> (#[trigger] entries@[j]).1 < limit,
        decreases entries@.len() - i,
    {
        if entries[i].1 >= limit {
            return false;
        }
        i += 1;
    }
    true
}

/// Whether every number of minutes of the list is at most `limit`.
pub fn all_minutes_within(entries: &Vec<(Date, u64)>, limit: u64) -> (b: bool)
    ensures
        b == minutes_within(entries@, limit as nat),
{
    let mut i: usize = 0;
    while i < entries.len()
        invariant
            i <= entries@.len(),
            forall|j: int| 0 <= j < i ==> (#[trigger] entries@[j]).1 <= limit,
        decreases entries@.len() - i,
    {
        if entries[i].1 > limit {
            return false;
        }
        i += 1;
    }
    true
}

/// A copy of a list of plain values.
pub fn copy_list<T: Copy>(list: &Vec<T>) -> (copy: Vec<T>)
    ensures
        copy@ == list@,
{
    let mut copy: Vec<T> = Vec::new();
    let mut i: usize = 0;
    while i < list.len()
        invariant
            i <= list@.len(),
            copy@ == list@.subrange(0, i as int),
        decreases list@.len() - i,
    {
        copy.push(list[i]);
        i += 1;
        assert(copy@ == list@.subrange(0, i as int));
    }
    assert(list@.subrange(0, list@.len() as int) == list@);
    copy
}

} // verus!
