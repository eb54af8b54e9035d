//! What holds of series, cursors and charts.

use crate::chart::{
    curve_position, delta_of, deltas, has_curve, last_point, next_point, sent_before, trace,
    Curve, Cursor, DeltaView, Plot, Point,
};
use crate::store::Record;
use crate::uid::LineUid;
use vstd::prelude::*;

verus! {

/// The series drawn from a history is sound, and has at most one point per entry.
pub proof fn lemma_trace_wf(history: Seq<Record>, member: spec_fn(Record) -> bool, line: LineUid)
    requires
        history.len() <= usize::MAX,
    ensures
        trace(history, member).len() <= history.len(),
        (Curve { line, points: trace(history, member) }).wf(history.len() as usize),
    decreases history.len(),
{
    if history.len() > 0 {
        lemma_trace_wf(history.drop_last(), member, line);
        let before = trace(history.drop_last(), member);
        assert((Curve { line, points: before }).wf((history.len() - 1) as usize));
        let points = trace(history, member);
        if member(history.last()) {
            let added = next_point(
                last_point(before),
                history.last(),
                (history.len() - 1) as usize,
            );
            assert(points == before.push(added));
            assert(added.seq == history.len() - 1);
            let shorter = Curve { line, points: before };
            assert forall|k: int| 0 <= k < points.len() implies (#[trigger] points[k]).seq
                < history.len() by {
                if k < before.len() {
                    assert(points[k] == shorter.points[k]);
                    assert(shorter.points[k].seq < history.len() - 1);
                } else {
                    assert(points[k] == added);
                }
            }
            assert forall|k: int, l: int| 0 <= k < l < points.len() implies (
            #[trigger] points[k]).seq < (#[trigger] points[l]).seq by {
                assert(points[k] == shorter.points[k]);
                assert(shorter.points[k].seq < history.len() - 1);
                if l < before.len() {
                    assert(points[l] == shorter.points[l]);
                }
            }
            assert forall|k: int, l: int| 0 <= k <= l < points.len() implies (
            #[trigger] points[k]).time <= (#[trigger] points[l]).time by {
                if l < before.len() {
                    assert(points[k] == shorter.points[k]);
                    assert(points[l] == shorter.points[l]);
                } else if k < before.len() {
                    assert(points[k] == shorter.points[k]);
                    assert(shorter.points[k].time <= shorter.points[before.len() - 1].time);
                }
            }
        } else {
            assert(points == before);
        }
    }
}

/// Two ways of choosing allocations that agree on every entry of a history draw the same
/// series from it.
pub proof fn lemma_trace_agrees(
    history: Seq<Record>,
    lft: spec_fn(Record) -> bool,
    rgt: spec_fn(Record) -> bool,
)
    requires
        forall|k: int| 0 <= k < history.len() ==> lft(#[trigger] history[k]) == rgt(history[k]),
    ensures
        trace(history, lft) == trace(history, rgt),
    decreases history.len(),
{
    if history.len() > 0 {
        let front = history.drop_last();
        assert forall|k: int| 0 <= k < front.len() implies lft(#[trigger] front[k]) == rgt(
            front[k],
        ) by {
            assert(front[k] == history[k]);
        }
        lemma_trace_agrees(front, lft, rgt);
        assert(lft(history[history.len() - 1]) == rgt(history[history.len() - 1]));
    }
}

/// In a sound series the points that a cursor has received are exactly those numbered below
/// it: a drain skips no point that the cursor has not reached and repeats none that it has.
pub proof fn lemma_sent_before(points: Seq<Point>, since: usize)
    requires
        forall|k: int, l: int|
            0 <= k < l < points.len() ==> (#[trigger] points[k]).seq < (#[trigger] points[l]).seq,
    ensures
        0 <= sent_before(points, since) <= points.len(),
        forall|k: int|
            0 <= k < points.len() ==> (k < sent_before(points, since) <==> (
            #[trigger] points[k]).seq < since),
    decreases points.len(),
{
    if points.len() > 0 {
        let front = points.drop_last();
        assert forall|k: int, l: int| 0 <= k < l < front.len() implies (#[trigger] front[k]).seq
            < (#[trigger] front[l]).seq by {
            assert(front[k] == points[k] && front[l] == points[l]);
        }
        lemma_sent_before(front, since);
        if points.last().seq < since {
            assert forall|k: int| 0 <= k < points.len() implies (#[trigger] points[k]).seq
                < since by {
                if k < points.len() - 1 {
                    assert(points[k].seq < points[points.len() - 1].seq);
                }
            }
        } else {
            assert forall|k: int| 0 <= k < points.len() implies (k < sent_before(points, since)
                <==> (#[trigger] points[k]).seq < since) by {
                if k < front.len() {
                    assert(front[k] == points[k]);
                }
            }
        }
    }
}

/// A drain resumes where the one before it stopped: of a series that has grown since a
/// cursor was moved past its points, the cursor has received exactly the points it had then.
pub proof fn lemma_drain_resumes(before: Seq<Point>, added: Seq<Point>, since: usize)
    requires
        forall|k: int, l: int|
            0 <= k < l < (before + added).len() ==> (#[trigger] (before + added)[k]).seq < (
            #[trigger] (before + added)[l]).seq,
        forall|k: int| 0 <= k < before.len() ==> (#[trigger] before[k]).seq < since,
        forall|k: int| 0 <= k < added.len() ==> (#[trigger] added[k]).seq >= since,
    ensures
        sent_before(before + added, since) == before.len(),
        (before + added).subrange(
            sent_before(before + added, since),
            (before + added).len() as int,
        ) == added,
{
    let points = before + added;
    lemma_sent_before(points, since);
    let start = sent_before(points, since);
    if start < before.len() {
        assert(points[start] == before[start]);
        assert(!(points[start].seq < since));
    } else if start > before.len() {
        assert(points[before.len() as int] == added[0]);
        assert(points[before.len() as int].seq < since);
    }
    assert(points.subrange(start, points.len() as int) =~= added);
}

/// After one event a client that had received everything receives, for each series of a line
/// of the allocation, the one new point and the position it takes, and nothing for the other
/// series.
pub proof fn lemma_ingest_then_drain(plot: Plot, record: Record, lines: Seq<LineUid>, i: int)
    requires
        plot.wf(),
        plot.events < usize::MAX,
        0 <= i < plot.curves.len(),
    ensures
        delta_of(plot.ingested(record, lines).curves[i], plot.cursor(), plot.epoch) == if lines.contains(
            plot.curves[i].line,
        ) {
            Some(
                DeltaView {
                    filter_id: plot.curves[i].line,
                    start: plot.curves[i].points.len() as int,
                    new_points: seq![
                        next_point(last_point(plot.curves[i].points), record, plot.events),
                    ],
                },
            )
        } else {
            None
        },
{
    let before = plot.curves[i].points;
    let after = plot.ingested(record, lines);
    lemma_ingested(plot, record, lines);
    assert(plot.curves[i].wf(plot.events));
    assert(after.curves[i].wf(after.events));
    let none = Seq::<Point>::empty();
    let added = if lines.contains(plot.curves[i].line) {
        seq![next_point(last_point(before), record, plot.events)]
    } else {
        none
    };
    assert(after.curves[i].points =~= before + added);
    assert forall|k: int| 0 <= k < before.len() implies (#[trigger] before[k]).seq
        < plot.events by {
        assert(plot.curves[i].points[k].seq < plot.events);
    }
    assert forall|k: int, l: int| 0 <= k < l < (before + added).len() implies (#[trigger] (before
        + added)[k]).seq < (#[trigger] (before + added)[l]).seq by {
        assert(after.curves[i].points[k].seq < after.curves[i].points[l].seq);
    }
    lemma_drain_resumes(before, added, plot.events);
}

/// A client that has received everything receives nothing more until something is ingested
/// or drawn again.
pub proof fn lemma_nothing_left(plot: Plot)
    requires
        plot.wf(),
    ensures
        deltas(plot.curves, plot.cursor(), plot.epoch) == Seq::<DeltaView>::empty(),
{
    lemma_nothing_left_in(plot.curves, plot.events, plot.epoch);
}

/// No series whose events are all numbered below `events` has anything for a cursor at
/// `events`.
proof fn lemma_nothing_left_in(curves: Seq<Curve>, events: usize, epoch: u64)
    requires
        forall|i: int| 0 <= i < curves.len() ==> (#[trigger] curves[i]).wf(events),
    ensures
        deltas(curves, Cursor { epoch, seq: events }, epoch) == Seq::<DeltaView>::empty(),
    decreases curves.len(),
{
    if curves.len() > 0 {
        let front = curves.drop_last();
        assert forall|i: int| 0 <= i < front.len() implies (#[trigger] front[i]).wf(events) by {
            assert(front[i] == curves[i]);
        }
        lemma_nothing_left_in(front, events, epoch);
        let last = curves[curves.len() - 1];
        assert(last.wf(events));
        lemma_sent_before(last.points, events);
        if last.points.len() > 0 {
            assert(last.points[last.points.len() - 1].seq < events);
        }
    }
}

/// In sound charts the series of a line is found at one position only.
pub proof fn lemma_curve_position(plot: Plot, line: LineUid, at: int)
    requires
        plot.wf(),
        0 <= at < plot.curves.len(),
        plot.curves[at].line == line,
    ensures
        has_curve(plot.curves, line),
        curve_position(plot.curves, line) == at,
{
    let found = curve_position(plot.curves, line);
    if found < at {
        assert(plot.curves[found].line != plot.curves[at].line);
    } else if at < found {
        assert(plot.curves[at].line != plot.curves[found].line);
    }
}

/// Taking in an event keeps the charts sound.
pub proof fn lemma_ingested(plot: Plot, record: Record, lines: Seq<LineUid>)
    requires
        plot.wf(),
        plot.events < usize::MAX,
    ensures
        plot.ingested(record, lines).wf(),
{
    let after = plot.ingested(record, lines);
    assert forall|i: int| 0 <= i < after.curves.len() implies (#[trigger] after.curves[i]).wf(
        after.events,
    ) by {
        let before = plot.curves[i];
        let points = after.curves[i].points;
        assert(before.wf(plot.events));
        if lines.contains(before.line) {
            assert forall|k: int, l: int| 0 <= k <= l < points.len() implies (
            #[trigger] points[k]).time <= (#[trigger] points[l]).time by {
                if l < before.points.len() {
                    assert(points[k] == before.points[k]);
                    assert(points[l] == before.points[l]);
                } else if k < before.points.len() {
                    assert(points[k] == before.points[k]);
                    assert(before.points[k].time <= before.points[before.points.len() - 1].time);
                }
            }
            assert forall|k: int, l: int| 0 <= k < l < points.len() implies (
            #[trigger] points[k]).seq < (#[trigger] points[l]).seq by {
                assert(points[k] == before.points[k]);
                if l < before.points.len() {
                    assert(points[l] == before.points[l]);
                }
            }
            assert forall|k: int| 0 <= k < points.len() implies (#[trigger] points[k]).seq
                < after.events by {
                if k < before.points.len() {
                    assert(points[k] == before.points[k]);
                }
            }
        }
    }
    assert forall|i: int, j: int| 0 <= i < j < after.curves.len() implies (
    #[trigger] after.curves[i]).line != (#[trigger] after.curves[j]).line by {
        assert(plot.curves[i].line != plot.curves[j].line);
    }
}

/// Drawing a sound series for a line keeps the charts sound, touches no other series, and
/// leaves the charts with a series for that line.
pub proof fn lemma_redrawn(plot: Plot, line: LineUid, points: Seq<Point>, events: usize)
    requires
        plot.wf(),
        (Curve { line, points }).wf(events),
    ensures
        plot.redrawn(line, points, events).wf(),
        forall|other: LineUid|
            has_curve(plot.redrawn(line, points, events).curves, other) <==> (has_curve(
                plot.curves,
                other,
            ) || other == line),
        forall|i: int|
            0 <= i < plot.redrawn(line, points, events).curves.len() ==> (if (
            #[trigger] plot.redrawn(line, points, events).curves[i]).line == line {
                plot.redrawn(line, points, events).curves[i].points == points
            } else {
                i < plot.curves.len() && plot.redrawn(line, points, events).curves[i]
                    == plot.curves[i]
            }),
{
    let after = plot.redrawn(line, points, events);
    let drawn = Curve { line, points };
    if has_curve(plot.curves, line) {
        let at = curve_position(plot.curves, line);
        assert(plot.curves[at].line == line);
        assert forall|i: int| 0 <= i < after.curves.len() implies (#[trigger] after.curves[i]).line
            == plot.curves[i].line by {}
        assert forall|i: int| 0 <= i < after.curves.len() && i != at implies (
        #[trigger] after.curves[i]).line != line by {
            if i < at {
                assert(plot.curves[i].line != plot.curves[at].line);
            } else {
                assert(plot.curves[at].line != plot.curves[i].line);
            }
        }
    } else {
        assert forall|i: int| 0 <= i < plot.curves.len() implies (#[trigger] after.curves[i])
            == plot.curves[i] && after.curves[i].line != line by {}
        assert(after.curves[plot.curves.len() as int] == drawn);
    }
    assert forall|i: int| 0 <= i < after.curves.len() implies (#[trigger] after.curves[i]).wf(
        after.events,
    ) by {
        if after.curves[i].line != line {
            assert(plot.curves[i].wf(plot.events));
        } else {
            assert(after.curves[i] == drawn);
        }
    }
    assert forall|i: int, j: int| 0 <= i < j < after.curves.len() implies (
    #[trigger] after.curves[i]).line != (#[trigger] after.curves[j]).line by {
        if i < plot.curves.len() && j < plot.curves.len() {
            assert(plot.curves[i].line != plot.curves[j].line);
        }
    }
    assert forall|other: LineUid| has_curve(after.curves, other) implies (has_curve(
        plot.curves,
        other,
    ) || other == line) by {
        let i = curve_position(after.curves, other);
        if other != line {
            assert(plot.curves[i].line == other);
        }
    }
    assert forall|other: LineUid| (has_curve(plot.curves, other) || other == line) implies has_curve(
        after.curves,
        other,
    ) by {
        if other == line {
            if has_curve(plot.curves, line) {
                assert(after.curves[curve_position(plot.curves, line)].line == line);
            } else {
                assert(after.curves[plot.curves.len() as int].line == line);
            }
        } else {
            let i = curve_position(plot.curves, other);
            assert(after.curves[i].line == other);
        }
    }
}

/// Dropping the series of a line keeps the charts sound and every other series as it was.
pub proof fn lemma_dropped(plot: Plot, line: LineUid)
    requires
        plot.wf(),
    ensures
        plot.dropped(line).wf(),
        forall|other: LineUid|
            has_curve(plot.dropped(line).curves, other) <==> (has_curve(plot.curves, other)
                && other != line),
        forall|i: int|
            0 <= i < plot.dropped(line).curves.len() ==> plot.curves.contains(
                #[trigger] plot.dropped(line).curves[i],
            ),
{
    let after = plot.dropped(line);
    if has_curve(plot.curves, line) {
        let at = curve_position(plot.curves, line);
        assert(plot.curves[at].line == line);
        assert forall|i: int| 0 <= i < after.curves.len() implies (#[trigger] after.curves[i])
            == plot.curves[if i < at {
            i
        } else {
            i + 1
        }] by {}
        assert forall|i: int| 0 <= i < after.curves.len() implies (#[trigger] after.curves[i]).wf(
            after.events,
        ) && after.curves[i].line != line && plot.curves.contains(after.curves[i]) by {
            let a = if i < at { i } else { i + 1 };
            assert(plot.curves[a].wf(plot.events));
            assert(plot.curves[a] == after.curves[i]);
            if a < at {
                assert(plot.curves[a].line != plot.curves[at].line);
            } else {
                assert(plot.curves[at].line != plot.curves[a].line);
            }
        }
        assert forall|i: int, j: int| 0 <= i < j < after.curves.len() implies (
        #[trigger] after.curves[i]).line != (#[trigger] after.curves[j]).line by {
            let a = if i < at { i } else { i + 1 };
            let b = if j < at { j } else { j + 1 };
            assert(plot.curves[a].line != plot.curves[b].line);
        }
        assert forall|other: LineUid| has_curve(after.curves, other) implies (has_curve(
            plot.curves,
            other,
        ) && other != line) by {
            let i = curve_position(after.curves, other);
            let a = if i < at { i } else { i + 1 };
            assert(plot.curves[a].line == other);
        }
        assert forall|other: LineUid| (has_curve(plot.curves, other) && other
            != line) implies has_curve(after.curves, other) by {
            let a = curve_position(plot.curves, other);
            let i = if a < at { a } else { a - 1 };
            assert(after.curves[i].line == other);
        }
    } else {
        assert forall|i: int| 0 <= i < after.curves.len() implies plot.curves.contains(
            #[trigger] after.curves[i],
        ) by {
            assert(plot.curves[i] == after.curves[i]);
        }
    }
}

} // verus!
