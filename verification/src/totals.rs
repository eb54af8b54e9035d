//! What a series shows is what the table holds.
//!
//! The charts keep their totals by adding at each birth and subtracting at each death. This
//! module states what those totals are worth: as long as the sizes of all the allocations ever
//! sorted into a line add up to no more than the largest `u64`, the last point of its series
//! shows exactly the number and the bytes of the allocations of the line that are live in the
//! table.

use crate::chart::{belongs, last_point, trace};
use crate::filter::lemmas::lemma_classification_ignores_death;
use crate::state::Model;
use crate::store::{coherent, position, replayed, Record};
use vstd::prelude::*;

verus! {

/// True if `record` is live and `member` takes it.
pub open spec fn counts(record: Record, member: spec_fn(Record) -> bool) -> bool {
    record.death is None && member(record)
}

/// The bytes that `record` adds to the live bytes of the allocations that `member` takes.
pub open spec fn live_share(record: Record, member: spec_fn(Record) -> bool) -> nat {
    if counts(record, member) {
        record.size as nat
    } else {
        0
    }
}

/// The bytes that `record` adds to all the bytes of the allocations that `member` takes.
pub open spec fn full_share(record: Record, member: spec_fn(Record) -> bool) -> nat {
    if member(record) {
        record.size as nat
    } else {
        0
    }
}

/// Total size of the allocations among `records` that are live and that `member` takes.
pub open spec fn live_bytes(records: Seq<Record>, member: spec_fn(Record) -> bool) -> nat
    decreases records.len(),
{
    if records.len() == 0 {
        0
    } else {
        live_bytes(records.drop_last(), member) + live_share(records.last(), member)
    }
}

/// Number of the allocations among `records` that are live and that `member` takes.
pub open spec fn live_count(records: Seq<Record>, member: spec_fn(Record) -> bool) -> nat
    decreases records.len(),
{
    if records.len() == 0 {
        0
    } else {
        live_count(records.drop_last(), member) + if counts(records.last(), member) {
            1nat
        } else {
            0nat
        }
    }
}

/// Total size of the allocations among `records` that `member` takes, live or dead.
pub open spec fn all_bytes(records: Seq<Record>, member: spec_fn(Record) -> bool) -> nat
    decreases records.len(),
{
    if records.len() == 0 {
        0
    } else {
        all_bytes(records.drop_last(), member) + full_share(records.last(), member)
    }
}

/// True if `member` takes an allocation or leaves it whether it is dead or alive.
pub open spec fn ignores_death(member: spec_fn(Record) -> bool) -> bool {
    forall|record: Record, time: u64| #[trigger]
        member(record.dead_at(time)) == member(record)
}

/// The live totals are at most the totals of everything, and every record is within them.
pub proof fn lemma_totals_bounds(records: Seq<Record>, member: spec_fn(Record) -> bool)
    ensures
        live_bytes(records, member) <= all_bytes(records, member),
        live_count(records, member) <= records.len(),
        forall|i: int|
            0 <= i < records.len() ==> live_share(#[trigger] records[i], member) <= live_bytes(
                records,
                member,
            ),
        forall|i: int|
            0 <= i < records.len() && counts(#[trigger] records[i], member) ==> live_count(
                records,
                member,
            ) >= 1,
    decreases records.len(),
{
    if records.len() > 0 {
        let front = records.drop_last();
        lemma_totals_bounds(front, member);
        assert forall|i: int| 0 <= i < records.len() implies live_share(
            #[trigger] records[i],
            member,
        ) <= live_bytes(records, member) by {
            if i < front.len() {
                assert(front[i] == records[i]);
            }
        }
        assert forall|i: int|
            0 <= i < records.len() && counts(#[trigger] records[i], member) implies live_count(
            records,
            member,
        ) >= 1 by {
            if i < front.len() {
                assert(front[i] == records[i]);
            }
        }
    }
}

/// Replacing one record changes each total by what the new record adds less what the old one
/// added.
pub proof fn lemma_totals_update(
    records: Seq<Record>,
    at: int,
    record: Record,
    member: spec_fn(Record) -> bool,
)
    requires
        0 <= at < records.len(),
    ensures
        live_bytes(records.update(at, record), member) + live_share(records[at], member)
            == live_bytes(records, member) + live_share(record, member),
        all_bytes(records.update(at, record), member) + full_share(records[at], member)
            == all_bytes(records, member) + full_share(record, member),
        live_count(records.update(at, record), member) + (if counts(records[at], member) {
            1nat
        } else {
            0nat
        }) == live_count(records, member) + (if counts(record, member) {
            1nat
        } else {
            0nat
        }),
    decreases records.len(),
{
    let after = records.update(at, record);
    if at == records.len() - 1 {
        assert(after.drop_last() =~= records.drop_last());
    } else {
        assert(after.drop_last() =~= records.drop_last().update(at, record));
        assert(after.last() == records.last());
        lemma_totals_update(records.drop_last(), at, record, member);
    }
}

/// The last point of the series that a coherent journal draws shows the live totals of the
/// records that the journal leaves behind, as long as no total has reached the largest `u64`.
pub proof fn lemma_trace_shows_live_totals(journal: Seq<Record>, member: spec_fn(Record) -> bool)
    requires
        coherent(journal),
        ignores_death(member),
        journal.len() <= usize::MAX,
        all_bytes(replayed(journal), member) <= u64::MAX,
    ensures
        replayed(journal).len() <= journal.len(),
        match last_point(trace(journal, member)) {
            Some(point) => point.live_bytes == live_bytes(replayed(journal), member)
                && point.live_count == live_count(replayed(journal), member),
            None => live_bytes(replayed(journal), member) == 0 && live_count(
                replayed(journal),
                member,
            ) == 0,
        },
    decreases journal.len(),
{
    if journal.len() > 0 {
        let front = journal.drop_last();
        let entry = journal.last();
        let before = replayed(front);
        let records = replayed(journal);
        lemma_totals_bounds(before, member);
        if entry.death is None {
            assert(records == before.push(entry));
            assert(records.drop_last() =~= before);
            assert(all_bytes(records, member) == all_bytes(before, member) + full_share(
                entry,
                member,
            ));
            lemma_trace_shows_live_totals(front, member);
        } else {
            let at = position(before, entry.id);
            let old = before[at];
            assert(entry == old.dead_at(entry.death->0));
            assert(member(old.dead_at(entry.death->0)) == member(old));
            lemma_totals_update(before, at, entry, member);
            lemma_trace_shows_live_totals(front, member);
            assert(counts(old, member) == member(entry));
        }
    }
}

/// In a sound state the last point of every series shows the number and the bytes of the
/// allocations of its line that are live in the table, as long as the sizes of all the
/// allocations ever sorted into the line fit in a `u64` together. A series without points
/// belongs to a line that has no live allocation.
pub proof fn lemma_series_show_live_totals(model: Model, i: int)
    requires
        model.wf(),
        0 <= i < model.plot.curves.len(),
        all_bytes(
            model.table.records,
            belongs(model.lines.rules, model.labels, model.plot.curves[i].line),
        ) <= u64::MAX,
    ensures
        ({
            let member = belongs(model.lines.rules, model.labels, model.plot.curves[i].line);
            match last_point(model.plot.curves[i].points) {
                Some(point) => point.live_bytes == live_bytes(model.table.records, member)
                    && point.live_count == live_count(model.table.records, member),
                None => live_bytes(model.table.records, member) == 0 && live_count(
                    model.table.records,
                    member,
                ) == 0,
            }
        }),
{
    let line = model.plot.curves[i].line;
    let member = belongs(model.lines.rules, model.labels, line);
    assert(ignores_death(member)) by {
        assert forall|record: Record, time: u64| #[trigger]
            member(record.dead_at(time)) == member(record) by {
            if record.labels@ < model.labels.len() {
                lemma_classification_ignores_death(
                    model.lines.rules,
                    record,
                    model.labels[record.labels@ as int],
                    time,
                );
            }
        }
    }
    lemma_trace_shows_live_totals(model.table.journal, member);
}

} // verus!
