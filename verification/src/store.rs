//! The table of all allocations.
//!
//! The store is built from the lifecycle events of a trace, in the order they arrive. It keeps
//! one record per allocation, found by the allocation's identifier, and the journal of the
//! births and deaths it accepted, from which a chart can be drawn again at any time.
//!
//! Policy on events that do not fit:
//!
//! - a second birth for an identifier is rejected with `DuplicateAllocation`;
//! - a death for an identifier that was never born is rejected with `UnknownAllocation`;
//! - a birth or death older than the last accepted event, and a death for an allocation that is
//!   already dead, are out of order and rejected with `ParseError`.
//!
//! A rejected event changes nothing.

use crate::error::Error;
use crate::labels::{interned, uid_of, Labels, Mem, Uid};
use std::collections::HashMap;
use vstd::prelude::*;

verus! {

/// One tracked allocation.
#[derive(Debug, Clone, Copy, PartialEq, Eq)]
pub struct Record {
    /// Identifier of the allocation, unique in a trace.
    pub id: u64,
    /// Size in bytes.
    pub size: u64,
    /// Identifier of the allocation's list of labels.
    pub labels: Uid,
    /// Time of birth.
    pub birth: u64,
    /// Time of death, absent while the allocation is live.
    pub death: Option<u64>,
}

impl Record {
    /// The record of an allocation that dies at `time`.
    pub open spec fn dead_at(self, time: u64) -> Record {
        Record { death: Some(time), ..self }
    }

    /// Time of the latest event in the allocation's life: its death if it is dead, else its
    /// birth.
    pub open spec fn spec_last_event(&self) -> u64 {
        match self.death {
            Some(time) => time,
            None => self.birth,
        }
    }

    /// Time of the latest event in the allocation's life: its death if it is dead, else its
    /// birth.
    #[verifier::when_used_as_spec(spec_last_event)]
    pub fn last_event(&self) -> (res: u64)
        ensures
            res == self.spec_last_event(),
    {
        match self.death {
            Some(time) => time,
            None => self.birth,
        }
    }

    /// True while the allocation has not died.
    pub fn is_live(&self) -> (res: bool)
        ensures
            res == (self.death is None),
    {
        self.death.is_none()
    }
}

/// Statistics of a profiling run.
#[derive(Debug, Clone, PartialEq, Eq)]
pub struct AllocStats {
    /// Start of the run, in seconds since the Unix epoch.
    pub start_date: u64,
    /// Time elapsed since the start of the run, in nanoseconds.
    pub duration: u64,
    /// Number of allocations made so far.
    pub alloc_count: u64,
    /// Total number of bytes allocated so far.
    pub total_size: u64,
    /// Path of the directory the dumps are read from.
    pub dump_dir: String,
}

/// A lifecycle event read from a dump.
#[derive(Debug, Clone, PartialEq, Eq)]
pub enum Event {
    /// An allocation is made.
    Birth {
        /// Identifier of the allocation.
        id: u64,
        /// Size in bytes.
        size: u64,
        /// Labels of the allocation.
        labels: Vec<String>,
        /// Time of the allocation.
        timestamp: u64,
    },
    /// An allocation is freed.
    Death {
        /// Identifier of the allocation.
        id: u64,
        /// Time of the deallocation.
        timestamp: u64,
    },
    /// New statistics on the run.
    StatsUpdate {
        /// The statistics that replace the current ones.
        stats: AllocStats,
    },
}

/// What an accepted event did.
#[derive(Debug, Clone, Copy, PartialEq, Eq, Structural)]
pub enum Applied {
    /// A record was created for this identifier.
    Born(u64),
    /// The record of this identifier received its time of death.
    Died(u64),
    /// The statistics of the run were replaced.
    Stats,
}

/// True if `records` holds a record for `id`.
pub open spec fn has_id(records: Seq<Record>, id: u64) -> bool {
    exists|i: int| 0 <= i < records.len() && (#[trigger] records[i]).id == id
}

/// Position in `records` of the record for `id`.
pub open spec fn position(records: Seq<Record>, id: u64) -> int {
    choose|i: int| 0 <= i < records.len() && (#[trigger] records[i]).id == id
}

/// The records that a journal leaves behind: each birth adds the record it carries, and each
/// death replaces the record of its allocation by the one it carries.
pub open spec fn replayed(journal: Seq<Record>) -> Seq<Record>
    decreases journal.len(),
{
    if journal.len() == 0 {
        Seq::empty()
    } else {
        let before = replayed(journal.drop_last());
        let entry = journal.last();
        if entry.death is None {
            before.push(entry)
        } else {
            before.update(position(before, entry.id), entry)
        }
    }
}

/// True if every entry of `journal` fits what came before it: a birth brings an allocation
/// that has no record yet, and a death carries the record of a live allocation, with its time
/// of death added and nothing else changed.
pub open spec fn coherent(journal: Seq<Record>) -> bool
    decreases journal.len(),
{
    journal.len() == 0 || {
        let before = replayed(journal.drop_last());
        let entry = journal.last();
        &&& coherent(journal.drop_last())
        &&& if entry.death is None {
            !has_id(before, entry.id)
        } else {
            &&& has_id(before, entry.id)
            &&& before[position(before, entry.id)].death is None
            &&& entry == before[position(before, entry.id)].dead_at(entry.death->0)
        }
    }
}

/// The store as the contracts see it.
pub struct Table {
    /// The records, in order of birth.
    pub records: Seq<Record>,
    /// One entry per accepted birth or death, in order of arrival: the record as the event
    /// left it.
    pub journal: Seq<Record>,
    /// Time of the last accepted birth or death, zero before the first.
    pub clock: u64,
    /// Latest statistics of the run, if any came.
    pub stats: Option<AllocStats>,
}

impl Table {
    /// The table of a store that has seen no event.
    pub open spec fn empty() -> Table {
        Table { records: Seq::empty(), journal: Seq::empty(), clock: 0, stats: None }
    }

    /// What holds of every table: identifiers are unique, no allocation dies before it is
    /// born, nothing happened after the clock, the journal is in order of time, and the records
    /// are what the journal leaves behind.
    pub open spec fn wf(self) -> bool {
        &&& coherent(self.journal)
        &&& self.records == replayed(self.journal)
        &&& forall|i: int, j: int|
            0 <= i < j < self.records.len() ==> (#[trigger] self.records[i]).id != (
            #[trigger] self.records[j]).id
        &&& forall|i: int|
            0 <= i < self.records.len() ==> (#[trigger] self.records[i]).birth
                <= self.records[i].last_event() <= self.clock
        &&& forall|k: int|
            0 <= k < self.journal.len() ==> (#[trigger] self.journal[k]).birth
                <= self.journal[k].last_event() <= self.clock
        &&& forall|k: int, l: int|
            0 <= k <= l < self.journal.len() ==> (#[trigger] self.journal[k]).last_event() <= (
            #[trigger] self.journal[l]).last_event()
    }

    /// Why `event` is rejected, if it is.
    pub open spec fn refusal(self, event: Event) -> Option<Error> {
        match event {
            Event::Birth { id, timestamp, .. } => {
                if has_id(self.records, id) {
                    Some(Error::DuplicateAllocation)
                } else if timestamp < self.clock {
                    Some(Error::ParseError)
                } else {
                    None
                }
            },
            Event::Death { id, timestamp } => {
                if !has_id(self.records, id) {
                    Some(Error::UnknownAllocation)
                } else if self.records[position(self.records, id)].death is Some || timestamp
                    < self.clock {
                    Some(Error::ParseError)
                } else {
                    None
                }
            },
            Event::StatsUpdate { .. } => None,
        }
    }

    /// The table once `event` is accepted; `labels` is the identifier that the store of label
    /// lists gives to the labels of a birth.
    pub open spec fn accept(self, event: Event, labels: Uid) -> Table {
        match event {
            Event::Birth { id, size, timestamp, .. } => {
                let record = Record { id, size, labels, birth: timestamp, death: None };
                Table {
                    records: self.records.push(record),
                    journal: self.journal.push(record),
                    clock: timestamp,
                    stats: self.stats,
                }
            },
            Event::Death { id, timestamp } => {
                let at = position(self.records, id);
                let record = self.records[at].dead_at(timestamp);
                Table {
                    records: self.records.update(at, record),
                    journal: self.journal.push(record),
                    clock: timestamp,
                    stats: self.stats,
                }
            },
            Event::StatsUpdate { stats } => Table { stats: Some(stats), ..self },
        }
    }

    /// What the store answers when it accepts `event`.
    pub open spec fn answer(event: Event) -> Applied {
        match event {
            Event::Birth { id, .. } => Applied::Born(id),
            Event::Death { id, .. } => Applied::Died(id),
            Event::StatsUpdate { .. } => Applied::Stats,
        }
    }
}

/// The labels that `event` brings, none unless it is a birth.
pub open spec fn event_labels(event: Event) -> Option<Labels> {
    match event {
        Event::Birth { labels, .. } => Some(labels.deep_view()),
        _ => None,
    }
}

/// The store of label lists once the labels that `event` brings are interned in `store`.
pub open spec fn grown(store: Seq<Labels>, event: Event) -> Seq<Labels> {
    match event_labels(event) {
        Some(labels) => interned(store, labels),
        None => store,
    }
}

/// The identifier under which `store` holds the labels that `event` brings.
pub open spec fn event_uid(store: Seq<Labels>, event: Event) -> Uid {
    match event_labels(event) {
        Some(labels) => Uid { uid: uid_of(store, labels) as usize },
        None => Uid { uid: 0 },
    }
}

/// The table of all allocations.
pub struct AllocStore {
    records: Vec<Record>,
    index: HashMap<u64, usize>,
    journal: Vec<Record>,
    clock: u64,
    stats: Option<AllocStats>,
}

impl View for AllocStore {
    type V = Table;

    closed spec fn view(&self) -> Table {
        Table {
            records: self.records@,
            journal: self.journal@,
            clock: self.clock,
            stats: self.stats,
        }
    }
}

impl AllocStore {
    /// The index finds every record, and nothing else.
    pub closed spec fn indexed(&self) -> bool {
        &&& forall|i: int|
            #![trigger self.records@[i]]
            0 <= i < self.records@.len() ==> self.index@.contains_key(self.records@[i].id)
                && self.index@[self.records@[i].id] == i
        &&& forall|id: u64| #[trigger]
            self.index@.contains_key(id) ==> self.index@[id] < self.records@.len()
                && self.records@[self.index@[id] as int].id == id
    }

    /// The store is sound: its table is, and its index agrees with its records.
    pub open spec fn wf(&self) -> bool {
        self@.wf() && self.indexed()
    }

    /// A store that has seen no event.
    pub fn new() -> (res: Self)
        ensures
            res.wf(),
            res@ == Table::empty(),
    {
        AllocStore {
            records: Vec::new(),
            index: HashMap::new(),
            journal: Vec::new(),
            clock: 0,
            stats: None,
        }
    }

    /// Position of the record for `id`, if there is one.
    fn find(&self, id: u64) -> (res: Option<usize>)
        requires
            self.wf(),
        ensures
            match res {
                Some(at) => has_id(self@.records, id) && at == position(self@.records, id) && at
                    < self@.records.len() && self@.records[at as int].id == id,
                None => !has_id(self@.records, id),
            },
    {
        match self.index.get(&id) {
            Some(at) => {
                let at = *at;
                assert(self@.records[at as int].id == id);
                Some(at)
            },
            None => {
                assert forall|i: int| 0 <= i < self@.records.len() implies (
                #[trigger] self@.records[i]).id != id by {
                    assert(self.index@.contains_key(self.records@[i].id));
                }
                None
            },
        }
    }

    /// The record for `id`, if there is one.
    pub fn get(&self, id: u64) -> (res: Option<Record>)
        requires
            self.wf(),
        ensures
            match res {
                Some(record) => has_id(self@.records, id) && record
                    == self@.records[position(self@.records, id)] && record.id == id,
                None => !has_id(self@.records, id),
            },
    {
        match self.find(id) {
            Some(at) => Some(self.records[at]),
            None => None,
        }
    }

    /// Number of records.
    pub fn len(&self) -> (res: usize)
        ensures
            res == self@.records.len(),
    {
        self.records.len()
    }

    /// The records, in order of birth.
    pub fn records(&self) -> (res: &Vec<Record>)
        ensures
            res@ == self@.records,
    {
        &self.records
    }

    /// The accepted births and deaths in order of arrival: for each the record as the event
    /// left it.
    pub fn journal(&self) -> (res: &Vec<Record>)
        ensures
            res@ == self@.journal,
    {
        &self.journal
    }

    /// Number of accepted births and deaths.
    pub fn events(&self) -> (res: usize)
        ensures
            res == self@.journal.len(),
    {
        self.journal.len()
    }

    /// Time of the last accepted birth or death, zero before the first.
    pub fn clock(&self) -> (res: u64)
        ensures
            res == self@.clock,
    {
        self.clock
    }

    /// Latest statistics of the run, if any came.
    pub fn stats(&self) -> (res: &Option<AllocStats>)
        ensures
            *res == self@.stats,
    {
        &self.stats
    }

    /// Applies a lifecycle event.
    ///
    /// A birth interns its labels in `mem` and creates a record; a death gives the record of
    /// its allocation its time of death; new statistics replace the current ones. An event that
    /// does not fit is rejected, and then neither the store nor `mem` changes.
    pub fn apply(&mut self, mem: &mut Mem, event: Event) -> (res: Result<Applied, Error>)
        requires
            old(self).wf(),
            old(mem).wf(),
        ensures
            final(self).wf(),
            final(mem).wf(),
            match res {
                Ok(applied) => {
                    &&& old(self)@.refusal(event) is None
                    &&& applied == Table::answer(event)
                    &&& final(mem)@ == grown(old(mem)@, event)
                    &&& final(self)@ == old(self)@.accept(event, event_uid(final(mem)@, event))
                },
                Err(error) => {
                    &&& old(self)@.refusal(event) == Some(error)
                    &&& final(self)@ == old(self)@
                    &&& final(mem)@ == old(mem)@
                },
            },
            event matches Event::Death { id, .. } && !has_id(old(self)@.records, id) ==> res
                == Err::<Applied, Error>(Error::UnknownAllocation),
            event matches Event::Birth { id, .. } && has_id(old(self)@.records, id) ==> res
                == Err::<Applied, Error>(Error::DuplicateAllocation),
    {
        match event {
            Event::Birth { id, size, labels, timestamp } => {
                if self.find(id).is_some() {
                    return Err(Error::DuplicateAllocation);
                }
                if timestamp < self.clock {
                    return Err(Error::ParseError);
                }
                let ghost wanted = labels.deep_view();
                let uid = mem.intern(labels);
                let record = Record { id, size, labels: uid, birth: timestamp, death: None };
                let at = self.records.len();
                self.records.push(record);
                self.index.insert(id, at);
                self.journal.push(record);
                self.clock = timestamp;
                proof {
                    assert(uid == event_uid(mem@, event));
                    assert(self@ == old(self)@.accept(event, uid));
                    assert(self@.journal.drop_last() =~= old(self)@.journal);
                    assert(self@.wf());
                    assert(self.indexed());
                }
                Ok(Applied::Born(id))
            },
            Event::Death { id, timestamp } => {
                let at = match self.find(id) {
                    Some(at) => at,
                    None => {
                        return Err(Error::UnknownAllocation);
                    },
                };
                let born = self.records[at];
                if born.death.is_some() || timestamp < self.clock {
                    return Err(Error::ParseError);
                }
                let record = Record { death: Some(timestamp), ..born };
                self.records.set(at, record);
                self.journal.push(record);
                self.clock = timestamp;
                proof {
                    assert(record == born.dead_at(timestamp));
                    assert(self@.journal.drop_last() =~= old(self)@.journal);
                    assert(self@.wf());
                    assert(self.indexed());
                }
                Ok(Applied::Died(id))
            },
            Event::StatsUpdate { stats } => {
                self.stats = Some(stats);
                Ok(Applied::Stats)
            },
        }
    }

    /// All the records as of the call, in order of birth.
    pub fn snapshot(&self) -> (res: Vec<Record>)
        ensures
            res@ == self@.records,
    {
        copy_records(&self.records)
    }

    /// The accepted births and deaths as of the call, in order of arrival: for each the record
    /// as the event left it.
    pub fn history(&self) -> (res: Vec<Record>)
        ensures
            res@ == self@.journal,
    {
        copy_records(&self.journal)
    }
}

/// A copy of `records`.
fn copy_records(records: &Vec<Record>) -> (res: Vec<Record>)
    ensures
        res@ == records@,
{
    let mut res: Vec<Record> = Vec::new();
    let mut i: usize = 0;
    while i < records.len()
        invariant
            i <= records.len(),
            res@ == records@.subrange(0, i as int),
        decreases records.len() - i,
    {
        res.push(records[i]);
        assert(res@ =~= records@.subrange(0, i + 1));
        i += 1;
    }
    assert(res@ =~= records@);
    res
}

} // verus!
