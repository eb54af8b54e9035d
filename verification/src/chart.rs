//! Charts: one series of points per line, grown event by event.
//!
//! Each birth or death that the aggregator ingests gets the next event number. A series
//! receives one point for each event of an allocation of its line; the point carries the event
//! number, the time, and the bytes and allocations of the line that are live after the event.
//! Totals are kept by adding at a birth and subtracting at a death; they stop at zero and at
//! the largest `u64` instead of wrapping, and a point never shows a time earlier than the point
//! before it.
//!
//! A client follows the charts with a cursor. Draining hands out, for each series, the points
//! whose event number the cursor has not reached, and moves the cursor past them. Drawing a
//! series again starts a new epoch: a cursor of an earlier epoch receives every series whole.

pub mod lemmas;

use crate::chart::lemmas::{lemma_curve_position, lemma_dropped, lemma_ingested, lemma_nothing_left, lemma_redrawn, lemma_trace_wf};
use crate::error::Error;
use crate::filter::{classification, Filters, Rule};
use crate::labels::{Labels, Mem};
use crate::store::Record;
use crate::uid::LineUid;
use vstd::prelude::*;

verus! {

/// A point of a series.
#[derive(Debug, Clone, Copy, PartialEq, Eq, Structural, Hash)]
pub struct Point {
    /// Number of the event that made the point.
    pub seq: usize,
    /// Time of the point.
    pub time: u64,
    /// Bytes of the line that are live after the event.
    pub live_bytes: u64,
    /// Allocations of the line that are live after the event.
    pub live_count: u64,
}

/// The sum of two totals, stopped at the largest `u64`.
pub open spec fn capped_sum(total: u64, more: u64) -> u64 {
    if total + more > u64::MAX {
        u64::MAX
    } else {
        (total + more) as u64
    }
}

/// The difference of two totals, stopped at zero.
pub open spec fn floored_difference(total: u64, less: u64) -> u64 {
    if total < less {
        0
    } else {
        (total - less) as u64
    }
}

/// The last of `points`, if there is one.
pub open spec fn last_point(points: Seq<Point>) -> Option<Point> {
    if points.len() == 0 {
        None
    } else {
        Some(points.last())
    }
}

/// The point that event number `seq` adds after `prev`: `record` is the allocation as the
/// event left it, live after its birth and dead after its death.
pub open spec fn next_point(prev: Option<Point>, record: Record, seq: usize) -> Point {
    let (time, live_bytes, live_count) = match prev {
        Some(point) => (point.time, point.live_bytes, point.live_count),
        None => (0u64, 0u64, 0u64),
    };
    let time = if record.last_event() < time {
        time
    } else {
        record.last_event()
    };
    if record.death is None {
        Point {
            seq,
            time,
            live_bytes: capped_sum(live_bytes, record.size),
            live_count: capped_sum(live_count, 1),
        }
    } else {
        Point {
            seq,
            time,
            live_bytes: floored_difference(live_bytes, record.size),
            live_count: floored_difference(live_count, 1),
        }
    }
}

/// The series that `history` draws for the allocations that `member` takes: event number `k`
/// is the `k`-th entry of `history`.
pub open spec fn trace(history: Seq<Record>, member: spec_fn(Record) -> bool) -> Seq<Point>
    decreases history.len(),
{
    if history.len() == 0 {
        Seq::empty()
    } else {
        let before = trace(history.drop_last(), member);
        if member(history.last()) {
            before.push(
                next_point(last_point(before), history.last(), (history.len() - 1) as usize),
            )
        } else {
            before
        }
    }
}

/// Which allocations the line `line` takes under `rules`, with label lists resolved in
/// `store`.
pub open spec fn belongs(rules: Seq<Rule>, store: Seq<Labels>, line: LineUid) -> spec_fn(
    Record,
) -> bool {
    |record: Record|
        record.labels@ < store.len() && classification(
            rules,
            record,
            store[record.labels@ as int],
        ).contains(line)
}

/// Number of points at the front of `points` that a cursor at event `since` has already
/// received: those before the last run of points numbered `since` or more.
pub open spec fn sent_before(points: Seq<Point>, since: usize) -> int
    decreases points.len(),
{
    if points.len() == 0 || points.last().seq < since {
        points.len() as int
    } else {
        sent_before(points.drop_last(), since)
    }
}

/// A series as the contracts see it.
pub struct Curve {
    /// The line that the series draws.
    pub line: LineUid,
    /// The points, in order of arrival.
    pub points: Seq<Point>,
}

impl Curve {
    /// What holds of every series of an aggregator that has numbered `events` events: event
    /// numbers grow strictly and stay below `events`, and times never go back.
    pub open spec fn wf(self, events: usize) -> bool {
        &&& forall|k: int| 0 <= k < self.points.len() ==> (#[trigger] self.points[k]).seq < events
        &&& forall|k: int, l: int|
            0 <= k < l < self.points.len() ==> (#[trigger] self.points[k]).seq < (
            #[trigger] self.points[l]).seq
        &&& forall|k: int, l: int|
            0 <= k <= l < self.points.len() ==> (#[trigger] self.points[k]).time <= (
            #[trigger] self.points[l]).time
    }
}

/// The position of a client in the stream of points.
#[derive(Debug, Clone, Copy, PartialEq, Eq, Structural, Hash)]
pub struct Cursor {
    /// Epoch of the charts when the client was last served.
    pub epoch: u64,
    /// Number of the first event that the client has not received.
    pub seq: usize,
}

impl Cursor {
    /// The cursor of a client that has received nothing.
    pub fn start() -> (res: Self)
        ensures
            res == (Cursor { epoch: 0, seq: 0 }),
    {
        Cursor { epoch: 0, seq: 0 }
    }
}

/// New points of one series.
#[derive(Debug, Clone, PartialEq, Eq)]
pub struct Delta {
    /// The line of the series.
    pub filter_id: LineUid,
    /// Number of points of the series that come before the new ones. The client keeps that
    /// many of the points it has and appends the new ones.
    pub start: usize,
    /// The new points, in order.
    pub new_points: Vec<Point>,
}

impl Delta {
    /// A delta equal to this one.
    pub fn duplicate(&self) -> (res: Self)
        ensures
            res@ == self@,
    {
        let new_points = copy_from(&self.new_points, 0);
        assert(new_points@ =~= self.new_points@);
        Delta { filter_id: self.filter_id, start: self.start, new_points }
    }
}

/// New points of one series as the contracts see them.
pub struct DeltaView {
    /// The line of the series.
    pub filter_id: LineUid,
    /// Number of points of the series that come before the new ones.
    pub start: int,
    /// The new points, in order.
    pub new_points: Seq<Point>,
}

impl View for Delta {
    type V = DeltaView;

    open spec fn view(&self) -> DeltaView {
        DeltaView {
            filter_id: self.filter_id,
            start: self.start as int,
            new_points: self.new_points@,
        }
    }
}

/// The charts as the contracts see them.
pub struct Plot {
    /// The series, in the order the lines were first drawn.
    pub curves: Seq<Curve>,
    /// Number of events numbered so far in this epoch.
    pub events: usize,
    /// Number of times a series was drawn again or dropped, modulo 2^64.
    pub epoch: u64,
}

/// True if one of `curves` draws `line`.
pub open spec fn has_curve(curves: Seq<Curve>, line: LineUid) -> bool {
    exists|i: int| 0 <= i < curves.len() && (#[trigger] curves[i]).line == line
}

/// Position in `curves` of the series that draws `line`.
pub open spec fn curve_position(curves: Seq<Curve>, line: LineUid) -> int {
    choose|i: int| 0 <= i < curves.len() && (#[trigger] curves[i]).line == line
}

/// The epoch after `epoch`.
pub open spec fn next_epoch(epoch: u64) -> u64 {
    if epoch == u64::MAX {
        0
    } else {
        (epoch + 1) as u64
    }
}

/// What a drain hands out for `curve` to a client at `cursor`, when the charts are in epoch
/// `epoch`: the whole series if the cursor is of another epoch, else the points that the cursor
/// has not reached, if there are any.
pub open spec fn delta_of(curve: Curve, cursor: Cursor, epoch: u64) -> Option<DeltaView> {
    if cursor.epoch != epoch {
        Some(DeltaView { filter_id: curve.line, start: 0, new_points: curve.points })
    } else {
        let start = sent_before(curve.points, cursor.seq);
        if start < curve.points.len() {
            Some(
                DeltaView {
                    filter_id: curve.line,
                    start,
                    new_points: curve.points.subrange(start, curve.points.len() as int),
                },
            )
        } else {
            None
        }
    }
}

/// What a drain hands out for `curves`, in their order.
pub open spec fn deltas(curves: Seq<Curve>, cursor: Cursor, epoch: u64) -> Seq<DeltaView>
    decreases curves.len(),
{
    if curves.len() == 0 {
        Seq::empty()
    } else {
        let before = deltas(curves.drop_last(), cursor, epoch);
        match delta_of(curves.last(), cursor, epoch) {
            Some(delta) => before.push(delta),
            None => before,
        }
    }
}

impl Plot {
    /// Charts that draw nothing yet.
    pub open spec fn empty() -> Plot {
        Plot { curves: Seq::empty(), events: 0, epoch: 0 }
    }

    /// What holds of all charts: no line is drawn twice, and every series is sound.
    pub open spec fn wf(self) -> bool {
        &&& forall|i: int, j: int|
            0 <= i < j < self.curves.len() ==> (#[trigger] self.curves[i]).line != (
            #[trigger] self.curves[j]).line
        &&& forall|i: int|
            0 <= i < self.curves.len() ==> (#[trigger] self.curves[i]).wf(self.events)
    }

    /// The cursor of a client that has received everything.
    pub open spec fn cursor(self) -> Cursor {
        Cursor { epoch: self.epoch, seq: self.events }
    }

    /// The series after the next event, which concerns `record` and the lines `lines`.
    pub open spec fn ingested(self, record: Record, lines: Seq<LineUid>) -> Plot {
        Plot {
            curves: Seq::new(
                self.curves.len(),
                |i: int|
                    if lines.contains(self.curves[i].line) {
                        Curve {
                            line: self.curves[i].line,
                            points: self.curves[i].points.push(
                                next_point(last_point(self.curves[i].points), record, self.events),
                            ),
                        }
                    } else {
                        self.curves[i]
                    },
            ),
            events: (self.events + 1) as usize,
            epoch: self.epoch,
        }
    }

    /// The charts once `line` is drawn with `points`, in a new epoch that has numbered at
    /// least `events` events: the series of `line` is replaced, or added last if there was
    /// none.
    pub open spec fn redrawn(self, line: LineUid, points: Seq<Point>, events: usize) -> Plot {
        Plot {
            curves: if has_curve(self.curves, line) {
                self.curves.update(curve_position(self.curves, line), Curve { line, points })
            } else {
                self.curves.push(Curve { line, points })
            },
            events: if self.events < events {
                events
            } else {
                self.events
            },
            epoch: next_epoch(self.epoch),
        }
    }

    /// The charts without the series of `line`, in a new epoch.
    pub open spec fn dropped(self, line: LineUid) -> Plot {
        if has_curve(self.curves, line) {
            Plot {
                curves: self.curves.remove(curve_position(self.curves, line)),
                events: self.events,
                epoch: next_epoch(self.epoch),
            }
        } else {
            self
        }
    }
}

/// One series.
#[derive(Debug)]
pub struct Series {
    line: LineUid,
    points: Vec<Point>,
}

impl View for Series {
    type V = Curve;

    closed spec fn view(&self) -> Curve {
        Curve { line: self.line, points: self.points@ }
    }
}

impl Series {
    /// A series without points.
    pub fn new(line: LineUid) -> (res: Self)
        ensures
            res@ == (Curve { line, points: Seq::empty() }),
    {
        Series { line, points: Vec::new() }
    }

    /// The line that the series draws.
    pub fn line(&self) -> (res: LineUid)
        ensures
            res == self@.line,
    {
        self.line
    }

    /// The points of the series.
    pub fn points(&self) -> (res: &Vec<Point>)
        ensures
            res@ == self@.points,
    {
        &self.points
    }

    /// Adds the point of event number `seq`, which concerns `record`.
    pub fn extend(&mut self, record: &Record, seq: usize)
        ensures
            final(self)@ == (Curve {
                line: old(self)@.line,
                points: old(self)@.points.push(
                    next_point(last_point(old(self)@.points), *record, seq),
                ),
            }),
    {
        let point = step(last_of(&self.points), record, seq);
        self.points.push(point);
    }
}

/// The last of `points`, if there is one.
fn last_of(points: &Vec<Point>) -> (res: Option<Point>)
    ensures
        res == last_point(points@),
{
    if points.len() == 0 {
        None
    } else {
        Some(points[points.len() - 1])
    }
}

/// Computes the point that event number `seq` adds after `prev`.
pub fn step(prev: Option<Point>, record: &Record, seq: usize) -> (res: Point)
    ensures
        res == next_point(prev, *record, seq),
{
    let (time, live_bytes, live_count) = match prev {
        Some(point) => (point.time, point.live_bytes, point.live_count),
        None => (0u64, 0u64, 0u64),
    };
    let at = record.last_event();
    let time = if at < time {
        time
    } else {
        at
    };
    if record.death.is_none() {
        Point {
            seq,
            time,
            live_bytes: if live_bytes > u64::MAX - record.size {
                u64::MAX
            } else {
                live_bytes + record.size
            },
            live_count: if live_count == u64::MAX {
                u64::MAX
            } else {
                live_count + 1
            },
        }
    } else {
        Point {
            seq,
            time,
            live_bytes: if live_bytes < record.size {
                0
            } else {
                live_bytes - record.size
            },
            live_count: if live_count < 1 {
                0
            } else {
                live_count - 1
            },
        }
    }
}

/// True if `line` is one of `lines`.
pub fn lists_line(lines: &Vec<LineUid>, line: LineUid) -> (res: bool)
    ensures
        res == lines@.contains(line),
{
    let mut i: usize = 0;
    while i < lines.len()
        invariant
            i <= lines.len(),
            forall|j: int| 0 <= j < i ==> lines@[j] != line,
        decreases lines.len() - i,
    {
        if lines[i] == line {
            return true;
        }
        i += 1;
    }
    false
}

/// A copy of the points of `points` from position `start` on.
fn copy_from(points: &Vec<Point>, start: usize) -> (res: Vec<Point>)
    requires
        start <= points.len(),
    ensures
        res@ == points@.subrange(start as int, points.len() as int),
{
    let mut res: Vec<Point> = Vec::new();
    let mut i: usize = start;
    while i < points.len()
        invariant
            start <= i <= points.len(),
            res@ == points@.subrange(start as int, i as int),
        decreases points.len() - i,
    {
        res.push(points[i]);
        assert(res@ =~= points@.subrange(start as int, i + 1));
        i += 1;
    }
    res
}

/// The charts.
#[derive(Debug)]
pub struct Charts {
    series: Vec<Series>,
    events: usize,
    epoch: u64,
}

impl View for Charts {
    type V = Plot;

    closed spec fn view(&self) -> Plot {
        Plot {
            curves: self.series@.map_values(|series: Series| series@),
            events: self.events,
            epoch: self.epoch,
        }
    }
}

impl Charts {
    /// The charts are sound.
    pub open spec fn wf(&self) -> bool {
        self@.wf()
    }

    /// Charts that draw nothing yet.
    pub fn new() -> (res: Self)
        ensures
            res.wf(),
            res@ == Plot::empty(),
    {
        let res = Charts { series: Vec::new(), events: 0, epoch: 0 };
        assert(res@.curves =~= Seq::empty());
        res
    }

    /// The cursor of a client that has received everything.
    pub fn cursor(&self) -> (res: Cursor)
        ensures
            res == self@.cursor(),
    {
        Cursor { epoch: self.epoch, seq: self.events }
    }

    /// Number of series.
    pub fn len(&self) -> (res: usize)
        ensures
            res == self@.curves.len(),
    {
        self.series.len()
    }

    /// Position of the series of `line`, if there is one.
    fn find(&self, line: LineUid) -> (res: Option<usize>)
        requires
            self.wf(),
        ensures
            match res {
                Some(at) => has_curve(self@.curves, line) && at == curve_position(
                    self@.curves,
                    line,
                ) && at < self@.curves.len() && self@.curves[at as int].line == line,
                None => !has_curve(self@.curves, line),
            },
    {
        let mut i: usize = 0;
        while i < self.series.len()
            invariant
                i <= self.series.len(),
                self.wf(),
                forall|j: int| 0 <= j < i ==> (#[trigger] self@.curves[j]).line != line,
            decreases self.series.len() - i,
        {
            if self.series[i].line == line {
                assert(self@.curves[i as int].line == line);
                proof {
                    lemma_curve_position(self@, line, i as int);
                }
                return Some(i);
            }
            i += 1;
        }
        None
    }

    /// The points of the series of `line`, if there is one.
    pub fn series(&self, line: LineUid) -> (res: Option<Vec<Point>>)
        requires
            self.wf(),
        ensures
            match res {
                Some(points) => has_curve(self@.curves, line) && points@
                    == self@.curves[curve_position(self@.curves, line)].points,
                None => !has_curve(self@.curves, line),
            },
    {
        match self.find(line) {
            Some(at) => {
                let points = copy_from(&self.series[at].points, 0);
                assert(points@ =~= self.series[at as int].points@);
                Some(points)
            },
            None => None,
        }
    }

    /// Takes in the next event, which concerns `record`, an allocation of the lines `lines`:
    /// each series of one of these lines receives a point.
    pub fn ingest(&mut self, record: &Record, lines: &Vec<LineUid>)
        requires
            old(self).wf(),
            old(self)@.events < usize::MAX,
        ensures
            final(self).wf(),
            final(self)@ == old(self)@.ingested(*record, lines@),
    {
        let seq = self.events;
        let mut i: usize = 0;
        while i < self.series.len()
            invariant
                i <= self.series.len(),
                self.series.len() == old(self).series.len(),
                self.events == old(self).events,
                self.epoch == old(self).epoch,
                seq == self.events,
                forall|j: int|
                    0 <= j < i ==> (#[trigger] self.series@[j])@ == old(self)@.ingested(
                        *record,
                        lines@,
                    ).curves[j],
                forall|j: int|
                    i <= j < self.series.len() ==> (#[trigger] self.series@[j]) == old(
                        self,
                    ).series@[j],
            decreases self.series.len() - i,
        {
            if lists_line(lines, self.series[i].line) {
                self.series[i].extend(record, seq);
            }
            i += 1;
        }
        self.events = seq + 1;
        proof {
            assert(self@.curves =~= old(self)@.ingested(*record, lines@).curves);
            lemma_ingested(old(self)@, *record, lines@);
        }
    }

    /// Hands out what `cursor` has not received, series by series, and moves the cursor past
    /// it.
    ///
    /// A cursor that these charts have moved never goes back, and a second drain right after
    /// the first hands out nothing.
    pub fn drain_since(&self, cursor: &mut Cursor) -> (res: Vec<Delta>)
        ensures
            res@.map_values(|delta: Delta| delta@) == deltas(
                self@.curves,
                *old(cursor),
                self@.epoch,
            ),
            *final(cursor) == self@.cursor(),
            old(cursor).seq <= self@.events ==> old(cursor).seq <= final(cursor).seq,
            self.wf() ==> deltas(self@.curves, *final(cursor), self@.epoch) == Seq::<
                DeltaView,
            >::empty(),
            self.wf() && *old(cursor) == self@.cursor() ==> res@.len() == 0,
    {
        proof {
            if self.wf() {
                lemma_nothing_left(self@);
            }
        }
        let since = *cursor;
        let mut res: Vec<Delta> = Vec::new();
        let mut i: usize = 0;
        while i < self.series.len()
            invariant
                i <= self.series.len(),
                res@.map_values(|delta: Delta| delta@) == deltas(
                    self@.curves.subrange(0, i as int),
                    since,
                    self@.epoch,
                ),
            decreases self.series.len() - i,
        {
            assert(self@.curves.subrange(0, i + 1).drop_last() =~= self@.curves.subrange(
                0,
                i as int,
            ));
            assert(self@.curves.subrange(0, i + 1).last() == self.series@[i as int]@);
            let ghost before = res@.map_values(|delta: Delta| delta@);
            let series = &self.series[i];
            let start = if since.epoch != self.epoch {
                0
            } else {
                received(&series.points, since.seq)
            };
            if since.epoch != self.epoch || start < series.points.len() {
                let delta = Delta {
                    filter_id: series.line,
                    start,
                    new_points: copy_from(&series.points, start),
                };
                assert(series.points@.subrange(0, series.points@.len() as int)
                    =~= series.points@);
                assert(Some(delta@) == delta_of(series@, since, self@.epoch));
                res.push(delta);
                assert(res@.map_values(|delta: Delta| delta@) =~= before.push(delta@));
            }
            i += 1;
        }
        assert(self@.curves.subrange(0, i as int) =~= self@.curves);
        *cursor = Cursor { epoch: self.epoch, seq: self.events };
        res
    }

    /// Every series whole, as a client that has received nothing gets it.
    pub fn content(&self) -> (res: Vec<Delta>)
        ensures
            res@.len() == self@.curves.len(),
            forall|i: int|
                0 <= i < res@.len() ==> (#[trigger] res@[i])@ == (DeltaView {
                    filter_id: self@.curves[i].line,
                    start: 0,
                    new_points: self@.curves[i].points,
                }),
    {
        let mut res: Vec<Delta> = Vec::new();
        let mut i: usize = 0;
        while i < self.series.len()
            invariant
                i <= self.series.len(),
                res@.len() == i,
                forall|j: int|
                    0 <= j < i ==> (#[trigger] res@[j])@ == (DeltaView {
                        filter_id: self@.curves[j].line,
                        start: 0,
                        new_points: self@.curves[j].points,
                    }),
            decreases self.series.len() - i,
        {
            let series = &self.series[i];
            let new_points = copy_from(&series.points, 0);
            assert(new_points@ =~= series.points@);
            res.push(Delta { filter_id: series.line, start: 0, new_points });
            i += 1;
        }
        res
    }

    /// Draws the series of `line` again from `history`, the accepted births and deaths in
    /// order of arrival, and starts a new epoch. An entry counts for the line if `filters`
    /// sorts its allocation into it. A line that has no series yet gets one, after the others.
    ///
    /// Fails with `UnknownUid`, and changes nothing, when `mem` never issued the identifier of
    /// the labels of one of the entries.
    pub fn rebuild(
        &mut self,
        line: LineUid,
        history: &Vec<Record>,
        filters: &Filters,
        mem: &Mem,
    ) -> (res: Result<(), Error>)
        requires
            old(self).wf(),
        ensures
            final(self).wf(),
            match res {
                Ok(_) => {
                    &&& forall|k: int|
                        0 <= k < history@.len() ==> (#[trigger] history@[k]).labels@ < mem@.len()
                    &&& final(self)@ == old(self)@.redrawn(
                        line,
                        trace(history@, belongs(filters@.rules, mem@, line)),
                        history.len(),
                    )
                },
                Err(error) => {
                    &&& error == Error::UnknownUid
                    &&& exists|k: int|
                        0 <= k < history@.len() && (#[trigger] history@[k]).labels@ >= mem@.len()
                    &&& final(self)@ == old(self)@
                },
            },
    {
        let ghost member = belongs(filters@.rules, mem@, line);
        let mut series = Series::new(line);
        let mut k: usize = 0;
        while k < history.len()
            invariant
                k <= history.len(),
                *self == *old(self),
                self.wf(),
                member == belongs(filters@.rules, mem@, line),
                series@ == (Curve {
                    line,
                    points: trace(history@.subrange(0, k as int), member),
                }),
                forall|j: int| 0 <= j < k ==> (#[trigger] history@[j]).labels@ < mem@.len(),
            decreases history.len() - k,
        {
            assert(history@.subrange(0, k + 1).drop_last() =~= history@.subrange(0, k as int));
            assert(history@.subrange(0, k + 1).last() == history@[k as int]);
            match filters.classify(&history[k], mem) {
                Ok(lines) => {
                    if lists_line(&lines, line) {
                        series.extend(&history[k], k);
                    }
                },
                Err(error) => {
                    return Err(error);
                },
            }
            k += 1;
        }
        proof {
            assert(history@.subrange(0, k as int) =~= history@);
            lemma_trace_wf(history@, member, line);
        }
        match self.find(line) {
            Some(at) => {
                self.series.set(at, series);
            },
            None => {
                self.series.push(series);
            },
        }
        if self.events < history.len() {
            self.events = history.len();
        }
        self.epoch = if self.epoch == u64::MAX {
            0
        } else {
            self.epoch + 1
        };
        proof {
            let after = old(self)@.redrawn(line, trace(history@, member), history.len());
            assert(self@.curves =~= after.curves);
            lemma_redrawn(old(self)@, line, trace(history@, member), history.len());
        }
        Ok(())
    }

    /// Drops the series of `line`, if there is one, and then starts a new epoch.
    pub fn drop_line(&mut self, line: LineUid)
        requires
            old(self).wf(),
        ensures
            final(self).wf(),
            final(self)@ == old(self)@.dropped(line),
    {
        match self.find(line) {
            Some(at) => {
                let _ = self.series.remove(at);
                self.epoch = if self.epoch == u64::MAX {
                    0
                } else {
                    self.epoch + 1
                };
                proof {
                    assert(self@.curves =~= old(self)@.curves.remove(at as int));
                    lemma_dropped(old(self)@, line);
                }
            },
            None => {},
        }
    }
}

/// Computes how many of `points` a cursor at event `since` has received.
fn received(points: &Vec<Point>, since: usize) -> (res: usize)
    ensures
        res == sent_before(points@, since),
        res <= points.len(),
{
    let mut end: usize = points.len();
    assert(points@.subrange(0, end as int) =~= points@);
    while end > 0 && points[end - 1].seq >= since
        invariant
            end <= points.len(),
            sent_before(points@, since) == sent_before(points@.subrange(0, end as int), since),
        decreases end,
    {
        assert(points@.subrange(0, end as int).drop_last() =~= points@.subrange(0, end - 1));
        end -= 1;
    }
    end
}

} // verus!
