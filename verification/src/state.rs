//! The state of the process.
//!
//! The state owns the store of label lists, the table of allocations, the filter engine and
//! the charts, and is the only way to change them. Events of the trace and commands of the
//! clients go through it one at a time, so each is applied whole or not at all. Sessions only
//! read: they ask for the full state once, and then for what is new since their cursor.
//!
//! At every moment the series of each line is what the journal of the table draws for the
//! allocations that the filter engine sorts into that line.

pub mod lemmas;

use crate::chart::{
    belongs, deltas, has_curve, trace, Charts, Curve, Delta, DeltaView, Plot, Point,
};
use crate::error::Error;
use crate::filter::lemmas::lemma_edited;
use crate::filter::spec::{default_name, FilterSpec, FilterSpecView};
use crate::filter::{classification, has_rule, Filters, Lines};
use crate::labels::{Labels, Mem};
use crate::msg::{Command, Message, MessageView, SessionCursor};
use crate::state::lemmas::{
    lemma_commanded_wf, lemma_ingested_wf, lemma_initial, lemma_nothing_pending,
    lemma_table_after,
};
use crate::store::{event_uid, grown, has_id, AllocStore, Applied, Event, Table};
use crate::uid::{FilterUid, LineUid};
use vstd::pervasive::unreached;
use vstd::prelude::*;

verus! {

/// A change of the lines that every session must hear of.
#[derive(Debug, PartialEq, Eq)]
pub enum Notice {
    /// A line was created or changed.
    FilterChanged {
        /// The specification of the line after the change.
        spec: FilterSpec,
    },
    /// A user filter was removed.
    FilterRemoved {
        /// Identifier of the filter.
        uid: FilterUid,
    },
}

impl Notice {
    /// The message that tells a client of the change.
    pub open spec fn message(&self) -> MessageView {
        match *self {
            Notice::FilterChanged { spec } => MessageView::FilterChanged { spec: spec@ },
            Notice::FilterRemoved { uid } => MessageView::FilterRemoved { uid },
        }
    }

    /// Writes the message that tells a client of the change.
    pub fn to_message(&self) -> (res: Message)
        ensures
            res@ == self.message(),
    {
        match self {
            Notice::FilterChanged { spec } => Message::FilterChanged { spec: spec.duplicate() },
            Notice::FilterRemoved { uid } => Message::FilterRemoved { uid: *uid },
        }
    }
}

/// The state of the process as the contracts see it.
pub struct Model {
    /// The label lists held, each at the rank its identifier names.
    pub labels: Seq<Labels>,
    /// The table of allocations.
    pub table: Table,
    /// The filter engine.
    pub lines: Lines,
    /// The charts.
    pub plot: Plot,
    /// The messages that told of each change of the lines, oldest first.
    pub notices: Seq<MessageView>,
}

impl Model {
    /// What holds of every state. Each part is sound; every allocation has labels that the
    /// store holds; the charts have numbered every entry of the journal, draw exactly the lines
    /// of the filter engine, and show for each line what the journal draws for it.
    pub open spec fn wf(self) -> bool {
        &&& self.labels.no_duplicates()
        &&& self.table.wf()
        &&& self.lines.wf()
        &&& self.plot.wf()
        &&& self.plot.events == self.table.journal.len()
        &&& forall|k: int|
            0 <= k < self.table.journal.len() ==> (#[trigger] self.table.journal[k]).labels@
                < self.labels.len()
        &&& forall|i: int|
            0 <= i < self.table.records.len() ==> (#[trigger] self.table.records[i]).labels@
                < self.labels.len()
        &&& forall|line: LineUid|
            has_curve(self.plot.curves, line) <==> self.lines.has_line(line)
        &&& forall|i: int|
            0 <= i < self.plot.curves.len() ==> (#[trigger] self.plot.curves[i]).points == trace(
                self.table.journal,
                belongs(self.lines.rules, self.labels, self.plot.curves[i].line),
            )
    }

    /// The state once `event` is accepted: a birth interns its labels, a birth or death
    /// changes the table and gives a point to each series of a line of the allocation, and
    /// statistics only change the table.
    pub open spec fn ingested(self, event: Event) -> Model {
        let labels = grown(self.labels, event);
        let table = self.table.accept(event, event_uid(labels, event));
        if event is StatsUpdate {
            Model { table, ..self }
        } else {
            let record = table.journal.last();
            let lines = classification(self.lines.rules, record, labels[record.labels@ as int]);
            Model { labels, table, plot: self.plot.ingested(record, lines), ..self }
        }
    }

    /// The series that the journal draws for `line`.
    pub open spec fn drawing(self, line: LineUid) -> Seq<Point> {
        trace(self.table.journal, belongs(self.lines.rules, self.labels, line))
    }

    /// The state once the series of `line` is drawn again from the journal.
    pub open spec fn redraw(self, line: LineUid) -> Model {
        Model {
            plot: self.plot.redrawn(
                line,
                self.drawing(line),
                self.table.journal.len() as usize,
            ),
            ..self
        }
    }

    /// Every series but those of the lines in `skip` shows what the journal draws for its line.
    pub open spec fn drawn_but(self, skip: Set<LineUid>) -> bool {
        forall|i: int|
            0 <= i < self.plot.curves.len() && !skip.contains(
                (#[trigger] self.plot.curves[i]).line,
            ) ==> self.plot.curves[i].points == self.drawing(self.plot.curves[i].line)
    }

    /// The state at the start of a session: nothing ingested, the two built-in lines, and an
    /// empty series for each.
    pub open spec fn initial() -> Model {
        (Model {
            labels: Seq::empty(),
            table: Table::empty(),
            lines: Lines::initial(),
            plot: Plot::empty(),
            notices: Seq::empty(),
        }).redraw(LineUid::Everything).redraw(LineUid::CatchAll)
    }

    /// The line that `command` creates, removes or changes.
    pub open spec fn target(self, command: Command) -> LineUid {
        match command {
            Command::Add { .. } => LineUid::Filter(FilterUid { uid: self.lines.next }),
            Command::Remove { filter } => LineUid::Filter(filter),
            Command::Edit { uid, .. } => uid,
        }
    }

    /// The state once `command` is done, if it can be done.
    ///
    /// A new filter gets the next identifier and the default name, and its series is drawn; a
    /// removed filter loses its series; a new predicate has the series of its filter drawn
    /// again. Each of these three changes what the user filters miss, so the series of
    /// *catch-all* is drawn again too. A new name, color or flag changes no series. Every
    /// command that is done leaves a message for the sessions.
    pub open spec fn commanded(self, command: Command) -> Option<Model> {
        match command {
            Command::Add { color, pred } => {
                let uid = FilterUid { uid: self.lines.next };
                let spec = FilterSpecView {
                    uid: LineUid::Filter(uid),
                    name: default_name(uid),
                    color,
                    edited: false,
                };
                match self.lines.with_filter(spec, pred) {
                    Some(lines) => Some(
                        (Model {
                            lines,
                            notices: self.notices.push(MessageView::FilterChanged { spec }),
                            ..self
                        }).redraw(LineUid::Filter(uid)).redraw(LineUid::CatchAll),
                    ),
                    None => None,
                }
            },
            Command::Remove { filter } => match self.lines.without_filter(filter) {
                Some(lines) => Some(
                    (Model {
                        lines,
                        plot: self.plot.dropped(LineUid::Filter(filter)),
                        notices: self.notices.push(MessageView::FilterRemoved { uid: filter }),
                        ..self
                    }).redraw(LineUid::CatchAll),
                ),
                None => None,
            },
            Command::Edit { uid, mutation } => match self.lines.edited(uid, mutation) {
                Some(lines) => {
                    let changed = Model {
                        lines,
                        notices: self.notices.push(
                            MessageView::FilterChanged { spec: lines.shown(uid) },
                        ),
                        ..self
                    };
                    Some(
                        if mutation is SetPredicate {
                            changed.redraw(uid).redraw(LineUid::CatchAll)
                        } else {
                            changed
                        },
                    )
                },
                None => None,
            },
        }
    }

    /// The message that brings a new session up to date.
    pub open spec fn full_sync(self) -> MessageView {
        MessageView::FullSync {
            filters: self.lines.listing(),
            series: self.plot.curves.map_values(
                |curve: Curve|
                    DeltaView { filter_id: curve.line, start: 0, new_points: curve.points },
            ),
        }
    }

    /// The state once each of `events` was applied in turn; those that the table rejects are
    /// skipped.
    pub open spec fn ingested_all(self, events: Seq<Event>) -> Model
        decreases events.len(),
    {
        if events.len() == 0 {
            self
        } else {
            let before = self.ingested_all(events.drop_last());
            if before.table.refusal(events.last()) is None {
                before.ingested(events.last())
            } else {
                before
            }
        }
    }

    /// The events among `events` that are skipped when each is applied in turn: for each its
    /// rank in `events` and why the table rejects it.
    pub open spec fn skipped(self, events: Seq<Event>) -> Seq<(usize, Error)>
        decreases events.len(),
    {
        if events.len() == 0 {
            Seq::empty()
        } else {
            let before = self.ingested_all(events.drop_last());
            let skipped = self.skipped(events.drop_last());
            match before.table.refusal(events.last()) {
                Some(error) => skipped.push(((events.len() - 1) as usize, error)),
                None => skipped,
            }
        }
    }

    /// The cursor of a session that has received everything.
    pub open spec fn cursor(self) -> SessionCursor {
        SessionCursor { chart: self.plot.cursor(), notices: self.notices.len() as usize }
    }

    /// What the server has to say to a session at `cursor`: the changes of lines that the
    /// session has not received, oldest first, then the new points of each series.
    pub open spec fn pending(self, cursor: SessionCursor) -> Seq<MessageView> {
        let from = if cursor.notices <= self.notices.len() {
            cursor.notices as int
        } else {
            self.notices.len() as int
        };
        self.notices.subrange(from, self.notices.len() as int) + deltas(
            self.plot.curves,
            cursor.chart,
            self.plot.epoch,
        ).map_values(|delta: DeltaView| MessageView::Delta(delta))
    }
}

/// The state of the process.
pub struct State {
    mem: Mem,
    store: AllocStore,
    filters: Filters,
    charts: Charts,
    notices: Vec<Notice>,
}

impl View for State {
    type V = Model;

    closed spec fn view(&self) -> Model {
        Model {
            labels: self.mem@,
            table: self.store@,
            lines: self.filters@,
            plot: self.charts@,
            notices: self.notices@.map_values(|notice: Notice| notice.message()),
        }
    }
}

impl State {
    /// The indexes of the table and of the store of label lists agree with what they index.
    pub closed spec fn indexed(&self) -> bool {
        self.store.indexed() && self.mem.indexed()
    }

    /// The state is sound.
    pub open spec fn wf(&self) -> bool {
        self@.wf() && self.indexed()
    }

    /// The changes of lines that the sessions must hear of can be counted in a `usize`.
    pub proof fn lemma_notices_fit(&self)
        ensures
            self@.notices.len() <= usize::MAX,
            self@.cursor().notices == self@.notices.len(),
    {
        let count: usize = self.notices.len();
        assert(self@.notices.len() == count);
    }

    /// The store of label lists.
    pub fn mem(&self) -> (res: &Mem)
        ensures
            res@ == self@.labels,
            self.wf() ==> res.wf(),
    {
        &self.mem
    }

    /// The table of allocations.
    pub fn store(&self) -> (res: &AllocStore)
        ensures
            res@ == self@.table,
            self.wf() ==> res.wf(),
    {
        &self.store
    }

    /// The filter engine.
    pub fn filters(&self) -> (res: &Filters)
        ensures
            res@ == self@.lines,
            self.wf() ==> res.wf(),
    {
        &self.filters
    }

    /// The charts.
    pub fn charts(&self) -> (res: &Charts)
        ensures
            res@ == self@.plot,
            self.wf() ==> res.wf(),
    {
        &self.charts
    }

    /// The state at the start of a session.
    pub fn new() -> (res: Self)
        ensures
            res.wf(),
            res@ == Model::initial(),
    {
        let mut res = State {
            mem: Mem::new(),
            store: AllocStore::new(),
            filters: Filters::new(),
            charts: Charts::new(),
            notices: Vec::new(),
        };
        assert(res@.notices =~= Seq::empty());
        proof {
            lemma_initial();
        }
        res.redraw(LineUid::Everything);
        res.redraw(LineUid::CatchAll);
        res
    }

    /// Draws the series of `line` again from the journal.
    fn redraw(&mut self, line: LineUid)
        requires
            old(self)@.plot.wf(),
            forall|k: int|
                0 <= k < old(self)@.table.journal.len() ==> (
                #[trigger] old(self)@.table.journal[k]).labels@ < old(self)@.labels.len(),
        ensures
            final(self)@ == old(self)@.redraw(line),
            final(self)@.plot.wf(),
            final(self).indexed() == old(self).indexed(),
    {
        match self.charts.rebuild(line, self.store.journal(), &self.filters, &self.mem) {
            Ok(_) => {},
            Err(_) => unreached(),
        }
    }

    /// Applies a batch of events of the trace in order, and returns those it skipped: for each
    /// its rank in the batch and why the table rejected it. A skipped event changes nothing,
    /// and does not stop the batch.
    pub fn ingest_all(&mut self, events: Vec<Event>) -> (res: Vec<(usize, Error)>)
        requires
            old(self).wf(),
        ensures
            final(self).wf(),
            final(self)@ == old(self)@.ingested_all(events@),
            res@ == old(self)@.skipped(events@),
    {
        let mut res: Vec<(usize, Error)> = Vec::new();
        let ghost all = events@;
        let count = events.len();
        let mut i: usize = 0;
        for event in it: events
            invariant
                self.wf(),
                i == it.index(),
                it.seq() == all,
                all.len() == count,
                self@ == old(self)@.ingested_all(all.subrange(0, i as int)),
                res@ == old(self)@.skipped(all.subrange(0, i as int)),
        {
            assert(all.subrange(0, i + 1).drop_last() =~= all.subrange(0, i as int));
            assert(all.subrange(0, i + 1).last() == event);
            match self.ingest(event) {
                Ok(_) => {},
                Err(error) => {
                    res.push((i, error));
                },
            }
            i += 1;
        }
        assert(all.subrange(0, i as int) =~= all);
        res
    }

    /// Does what a client asks, and returns the line that was created, removed or changed.
    ///
    /// Fails with `InvalidClientCommand`, and changes nothing, when the command cannot be
    /// done: the line does not exist, a built-in line is asked to take a predicate, or no
    /// identifier is left for a new filter.
    pub fn command(&mut self, command: Command) -> (res: Result<LineUid, Error>)
        requires
            old(self).wf(),
        ensures
            final(self).wf(),
            match res {
                Ok(line) => old(self)@.commanded(command) == Some(final(self)@) && line == old(
                    self,
                )@.target(command),
                Err(error) => error == Error::InvalidClientCommand && old(self)@.commanded(
                    command,
                ) is None && final(self)@ == old(self)@,
            },
    {
        proof {
            lemma_commanded_wf(old(self)@, command);
        }
        match command {
            Command::Add { color, pred } => {
                let uid = match self.filters.new_filter(color, pred) {
                    Ok(uid) => uid,
                    Err(error) => {
                        return Err(error);
                    },
                };
                let line = LineUid::Filter(uid);
                let spec = FilterSpec::new(uid, color);
                self.notices.push(Notice::FilterChanged { spec });
                assert(self@.notices =~= old(self)@.notices.push(
                    MessageView::FilterChanged { spec: spec@ },
                ));
                self.redraw(line);
                self.redraw(LineUid::CatchAll);
                Ok(line)
            },
            Command::Remove { filter } => {
                match self.filters.remove_filter(filter) {
                    Ok(_) => {},
                    Err(error) => {
                        return Err(error);
                    },
                }
                self.charts.drop_line(LineUid::Filter(filter));
                self.notices.push(Notice::FilterRemoved { uid: filter });
                assert(self@.notices =~= old(self)@.notices.push(
                    MessageView::FilterRemoved { uid: filter },
                ));
                self.redraw(LineUid::CatchAll);
                Ok(LineUid::Filter(filter))
            },
            Command::Edit { uid, mutation } => {
                let structural = mutation.is_structural();
                match self.filters.edit(uid, mutation) {
                    Ok(_) => {},
                    Err(error) => {
                        return Err(error);
                    },
                }
                proof {
                    lemma_edited(old(self)@.lines, uid, mutation);
                    if let LineUid::Filter(filter) = uid {
                        assert(has_rule(self@.lines.rules, filter));
                    }
                }
                let spec = match self.filters.spec_of(uid) {
                    Some(spec) => spec.duplicate(),
                    None => unreached(),
                };
                self.notices.push(Notice::FilterChanged { spec });
                assert(self@.notices =~= old(self)@.notices.push(
                    MessageView::FilterChanged { spec: spec@ },
                ));
                if structural {
                    self.redraw(uid);
                    self.redraw(LineUid::CatchAll);
                }
                Ok(uid)
            },
        }
    }

    /// The message that brings a new session up to date, and the cursor of a session that has
    /// received it.
    pub fn full_sync(&self) -> (res: (Message, SessionCursor))
        ensures
            res.0@ == self@.full_sync(),
            res.1 == self@.cursor(),
    {
        let filters = self.filters.list();
        let series = self.charts.content();
        let cursor = SessionCursor { chart: self.charts.cursor(), notices: self.notices.len() };
        let message = Message::FullSync { filters, series };
        assert(message@ =~= self@.full_sync()) by {
            assert(series@.map_values(|delta: Delta| delta@) =~= self@.plot.curves.map_values(
                |curve: Curve|
                    DeltaView { filter_id: curve.line, start: 0, new_points: curve.points },
            ));
        }
        (message, cursor)
    }

    /// Hands out what a session at `cursor` has not received, and moves the cursor past it:
    /// the changes of lines, oldest first, then the new points of each series.
    ///
    /// A second drain right after the first hands out nothing.
    pub fn drain(&self, cursor: &mut SessionCursor) -> (res: Vec<Message>)
        ensures
            res@.map_values(|message: Message| message@) == self@.pending(*old(cursor)),
            *final(cursor) == self@.cursor(),
            self.wf() ==> self@.pending(*final(cursor)) == Seq::<MessageView>::empty(),
            self.wf() && *old(cursor) == self@.cursor() ==> res@.len() == 0,
    {
        let count = self.notices.len();
        proof {
            if self.wf() {
                assert(self@.notices.len() == count);
                lemma_nothing_pending(self@);
            }
        }
        let mut res: Vec<Message> = Vec::new();
        let from = if cursor.notices <= self.notices.len() {
            cursor.notices
        } else {
            self.notices.len()
        };
        let mut i: usize = from;
        while i < self.notices.len()
            invariant
                from <= i <= self.notices.len(),
                res@.map_values(|message: Message| message@) == self@.notices.subrange(
                    from as int,
                    i as int,
                ),
            decreases self.notices.len() - i,
        {
            let ghost before = res@.map_values(|message: Message| message@);
            let message = self.notices[i].to_message();
            res.push(message);
            assert(res@.map_values(|message: Message| message@) =~= before.push(message@));
            assert(self@.notices.subrange(from as int, i + 1) =~= self@.notices.subrange(
                from as int,
                i as int,
            ).push(self@.notices[i as int]));
            i += 1;
        }
        let mut chart = cursor.chart;
        let news = self.charts.drain_since(&mut chart);
        let ghost told = res@.map_values(|message: Message| message@);
        let ghost given = news@.map_values(|delta: Delta| delta@);
        let mut j: usize = 0;
        while j < news.len()
            invariant
                j <= news.len(),
                given == news@.map_values(|delta: Delta| delta@),
                res@.map_values(|message: Message| message@) == told + given.subrange(
                    0,
                    j as int,
                ).map_values(|delta: DeltaView| MessageView::Delta(delta)),
            decreases news.len() - j,
        {
            let ghost before = res@.map_values(|message: Message| message@);
            let message = Message::Delta(news[j].duplicate());
            res.push(message);
            assert(res@.map_values(|message: Message| message@) =~= before.push(message@));
            assert(given.subrange(0, j + 1) =~= given.subrange(0, j as int).push(given[j as int]));
            assert(res@.map_values(|message: Message| message@) =~= told + given.subrange(
                0,
                j + 1,
            ).map_values(|delta: DeltaView| MessageView::Delta(delta)));
            j += 1;
        }
        assert(given.subrange(0, j as int) =~= given);
        *cursor = SessionCursor { chart, notices: self.notices.len() };
        res
    }

    /// Applies an event of the trace.
    ///
    /// An event that the table rejects changes nothing. A birth or death that it accepts gives
    /// one point to each series of a line of the allocation.
    pub fn ingest(&mut self, event: Event) -> (res: Result<Applied, Error>)
        requires
            old(self).wf(),
        ensures
            final(self).wf(),
            match res {
                Ok(applied) => {
                    &&& old(self)@.table.refusal(event) is None
                    &&& applied == Table::answer(event)
                    &&& final(self)@ == old(self)@.ingested(event)
                },
                Err(error) => {
                    &&& old(self)@.table.refusal(event) == Some(error)
                    &&& final(self)@ == old(self)@
                },
            },
            event matches Event::Death { id, .. } && !has_id(old(self)@.table.records, id) ==> res
                == Err::<Applied, Error>(Error::UnknownAllocation),
            event matches Event::Birth { id, .. } && has_id(old(self)@.table.records, id) ==> res
                == Err::<Applied, Error>(Error::DuplicateAllocation),
    {
        let applied = match self.store.apply(&mut self.mem, event) {
            Ok(applied) => applied,
            Err(error) => {
                return Err(error);
            },
        };
        let id = match applied {
            Applied::Born(id) => id,
            Applied::Died(id) => id,
            Applied::Stats => {
                proof {
                    lemma_table_after(old(self)@, event);
                }
                return Ok(applied);
            },
        };
        proof {
            lemma_table_after(old(self)@, event);
        }
        // The journal already holds the entry that the charts are about to number, so the
        // number fits in a `usize`.
        let entries = self.store.events();
        assert(old(self)@.table.journal.len() + 1 == entries);
        let record = match self.store.get(id) {
            Some(record) => record,
            None => unreached(),
        };
        let lines = match self.filters.classify(&record, &self.mem) {
            Ok(lines) => lines,
            Err(_) => unreached(),
        };
        self.charts.ingest(&record, &lines);
        proof {
            lemma_ingested_wf(old(self)@, event);
        }
        Ok(applied)
    }
}

} // verus!
