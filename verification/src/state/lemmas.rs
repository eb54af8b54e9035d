//! What holds of the state of the process.

use crate::chart::lemmas::{
    lemma_dropped, lemma_ingested, lemma_nothing_left, lemma_redrawn, lemma_trace_agrees,
    lemma_trace_wf,
};
use crate::chart::{belongs, has_curve, last_point, next_point, trace, Curve, Plot};
use crate::filter::lemmas::{
    lemma_edited, lemma_same_membership, lemma_same_sorting, lemma_with_filter,
    lemma_without_filter,
};
use crate::filter::spec::{default_name, FilterSpecView};
use crate::filter::{classification, has_rule, rule_position, same_sorting, Lines, Rule};
use crate::labels::{lemma_interned_extends, Labels};
use crate::msg::{Command, MessageView, SessionCursor};
use crate::state::Model;
use crate::store::{event_uid, grown, has_id, position, Applied, Event, Record, Table};
use crate::uid::{FilterUid, LineUid};
use vstd::prelude::*;

verus! {

/// The series that a history draws for a line does not depend on label lists interned after
/// the allocations of the history.
pub proof fn lemma_trace_ignores_new_labels(
    history: Seq<Record>,
    rules: Seq<Rule>,
    before: Seq<Labels>,
    after: Seq<Labels>,
    line: LineUid,
)
    requires
        before.len() <= after.len(),
        forall|i: int| 0 <= i < before.len() ==> after[i] == before[i],
        forall|k: int| 0 <= k < history.len() ==> (#[trigger] history[k]).labels@ < before.len(),
    ensures
        trace(history, belongs(rules, before, line)) == trace(
            history,
            belongs(rules, after, line),
        ),
{
    lemma_trace_agrees(history, belongs(rules, before, line), belongs(rules, after, line));
}

/// The series of a history with one more entry is the series of the history, with one more
/// point if the entry counts.
pub proof fn lemma_trace_push(
    history: Seq<Record>,
    record: Record,
    member: spec_fn(Record) -> bool,
)
    ensures
        trace(history.push(record), member) == if member(record) {
            trace(history, member).push(
                next_point(last_point(trace(history, member)), record, history.len() as usize),
            )
        } else {
            trace(history, member)
        },
{
    assert(history.push(record).drop_last() =~= history);
}

/// What accepting a birth or death does to the table: the journal grows by the record as the
/// event left it, which is also the record that the table now holds for the allocation.
pub proof fn lemma_table_after(model: Model, event: Event)
    requires
        model.wf(),
        model.table.refusal(event) is None,
    ensures
        ({
            let labels = grown(model.labels, event);
            let table = model.table.accept(event, event_uid(labels, event));
            &&& table.wf()
            &&& labels.no_duplicates()
            &&& model.labels.len() <= labels.len()
            &&& forall|i: int| 0 <= i < model.labels.len() ==> labels[i] == model.labels[i]
            &&& event is StatsUpdate ==> table.journal == model.table.journal && table.records
                == model.table.records
            &&& !(event is StatsUpdate) ==> {
                let record = table.journal.last();
                &&& table.journal == model.table.journal.push(record)
                &&& has_id(table.records, record.id)
                &&& table.records[position(table.records, record.id)] == record
                &&& record.labels@ < labels.len()
                &&& Table::answer(event) == (if event is Birth {
                    Applied::Born(record.id)
                } else {
                    Applied::Died(record.id)
                })
            }
            &&& forall|i: int|
                0 <= i < table.records.len() ==> (#[trigger] table.records[i]).labels@
                    < labels.len()
        }),
{
    let labels = grown(model.labels, event);
    let table = model.table.accept(event, event_uid(labels, event));
    match event {
        Event::Birth { id, size, labels: given, timestamp } => {
            lemma_interned_extends(model.labels, given.deep_view());
            assert(table.journal.drop_last() =~= model.table.journal);
            let record = table.journal.last();
            let at = model.table.records.len() as int;
            assert(table.records[at] == record);
            assert(table.records[at].id == record.id);
            let found = position(table.records, record.id);
            assert(table.records[found].id == record.id);
            if found != at {
                assert(model.table.records[found].id == id);
            }
            assert forall|i: int| 0 <= i < table.records.len() implies (
            #[trigger] table.records[i]).labels@ < labels.len() by {
                if i < at {
                    assert(table.records[i] == model.table.records[i]);
                }
            }
            assert(table.wf());
        },
        Event::Death { id, timestamp } => {
            let at = position(model.table.records, id);
            assert(table.journal.drop_last() =~= model.table.journal);
            let record = table.journal.last();
            assert(table.records[at] == record);
            assert(table.records[at].id == record.id);
            let found = position(table.records, record.id);
            assert(table.records[found].id == record.id);
            if found < at {
                assert(model.table.records[found].id != model.table.records[at].id);
            } else if at < found {
                assert(model.table.records[at].id != model.table.records[found].id);
            }
            assert forall|i: int| 0 <= i < table.records.len() implies (
            #[trigger] table.records[i]).labels@ < labels.len() by {
                assert(model.table.records[i].labels@ < labels.len());
            }
            assert(table.wf());
        },
        Event::StatsUpdate { stats } => {
            assert(table.wf());
        },
    }
}

/// Accepting an event keeps the state sound.
pub proof fn lemma_ingested_wf(model: Model, event: Event)
    requires
        model.wf(),
        model.table.refusal(event) is None,
        model.table.journal.len() < usize::MAX,
    ensures
        model.ingested(event).wf(),
{
    lemma_table_after(model, event);
    let after = model.ingested(event);
    if !(event is StatsUpdate) {
        let labels = after.labels;
        let table = after.table;
        let record = table.journal.last();
        let lines = classification(model.lines.rules, record, labels[record.labels@ as int]);
        assert(after.plot == model.plot.ingested(record, lines));
        assert forall|k: int| 0 <= k < table.journal.len() implies (
        #[trigger] table.journal[k]).labels@ < labels.len() by {
            if k < model.table.journal.len() {
                assert(table.journal[k] == model.table.journal[k]);
            }
        }
        assert forall|line: LineUid| has_curve(after.plot.curves, line) <==> after.lines.has_line(
            line,
        ) by {
            if has_curve(after.plot.curves, line) {
                let i = choose|i: int|
                    0 <= i < after.plot.curves.len() && (#[trigger] after.plot.curves[i]).line
                        == line;
                assert(model.plot.curves[i].line == line);
            }
            if has_curve(model.plot.curves, line) {
                let i = choose|i: int|
                    0 <= i < model.plot.curves.len() && (#[trigger] model.plot.curves[i]).line
                        == line;
                assert(after.plot.curves[i].line == line);
            }
        }
        assert forall|i: int| 0 <= i < after.plot.curves.len() implies (
        #[trigger] after.plot.curves[i]).points == trace(
            table.journal,
            belongs(after.lines.rules, labels, after.plot.curves[i].line),
        ) by {
            let line = model.plot.curves[i].line;
            let member = belongs(model.lines.rules, labels, line);
            assert(model.plot.curves[i].points == trace(
                model.table.journal,
                belongs(model.lines.rules, model.labels, line),
            ));
            lemma_trace_ignores_new_labels(
                model.table.journal,
                model.lines.rules,
                model.labels,
                labels,
                line,
            );
            lemma_trace_push(model.table.journal, record, member);
            assert(member(record) == lines.contains(line));
        }
        assert(after.plot.wf()) by {
            lemma_ingested(model.plot, record, lines);
        }
    }
}

/// Drawing the series of a line again from the journal keeps the charts sound, settles that
/// series, and touches no other.
pub proof fn lemma_redraw(model: Model, line: LineUid, skip: Set<LineUid>)
    requires
        model.plot.wf(),
        model.plot.events == model.table.journal.len(),
        model.drawn_but(skip),
    ensures
        model.redraw(line).plot.wf(),
        model.redraw(line).plot.events == model.table.journal.len(),
        model.redraw(line).drawn_but(skip.remove(line)),
        forall|other: LineUid|
            has_curve(model.redraw(line).plot.curves, other) <==> (has_curve(
                model.plot.curves,
                other,
            ) || other == line),
{
    let after = model.redraw(line);
    lemma_trace_wf(model.table.journal, belongs(model.lines.rules, model.labels, line), line);
    lemma_redrawn(model.plot, line, model.drawing(line), model.table.journal.len() as usize);
    assert forall|i: int|
        0 <= i < after.plot.curves.len() && !skip.remove(line).contains(
            (#[trigger] after.plot.curves[i]).line,
        ) implies after.plot.curves[i].points == after.drawing(after.plot.curves[i].line) by {
        if after.plot.curves[i].line != line {
            assert(after.plot.curves[i] == model.plot.curves[i]);
            assert(!skip.contains(model.plot.curves[i].line));
        }
    }
}

/// Two states with the same journal and labels draw the same series for a line that their
/// engines sort alike: *everything*, or a user filter that has the same predicate in both.
pub proof fn lemma_same_drawing(lft: Model, rgt: Model, line: LineUid)
    requires
        lft.table.journal == rgt.table.journal,
        lft.labels == rgt.labels,
        lft.lines.wf(),
        rgt.lines.wf(),
        line != LineUid::CatchAll,
        line matches LineUid::Filter(uid) ==> has_rule(lft.lines.rules, uid) && has_rule(
            rgt.lines.rules,
            uid,
        ) && lft.lines.rules[rule_position(lft.lines.rules, uid)].pred
            == rgt.lines.rules[rule_position(rgt.lines.rules, uid)].pred,
    ensures
        lft.drawing(line) == rgt.drawing(line),
{
    let journal = lft.table.journal;
    let one = belongs(lft.lines.rules, lft.labels, line);
    let other = belongs(rgt.lines.rules, rgt.labels, line);
    assert forall|k: int| 0 <= k < journal.len() implies one(#[trigger] journal[k]) == other(
        journal[k],
    ) by {
        let record = journal[k];
        if record.labels@ < lft.labels.len() {
            lemma_same_membership(
                lft.lines,
                rgt.lines,
                line,
                record,
                lft.labels[record.labels@ as int],
            );
        }
    }
    lemma_trace_agrees(journal, one, other);
}

/// The state at the start of a session is sound.
pub proof fn lemma_initial()
    ensures
        Model::initial().wf(),
        Model::initial().plot.curves == seq![
            Curve { line: LineUid::Everything, points: Seq::empty() },
            Curve { line: LineUid::CatchAll, points: Seq::empty() },
        ],
{
    let bare = Model {
        labels: Seq::empty(),
        table: Table::empty(),
        lines: Lines::initial(),
        plot: Plot::empty(),
        notices: Seq::empty(),
    };
    lemma_redraw(bare, LineUid::Everything, Set::empty());
    let one = bare.redraw(LineUid::Everything);
    assert(Set::<LineUid>::empty().remove(LineUid::Everything) =~= Set::empty());
    lemma_redraw(one, LineUid::CatchAll, Set::empty());
    let two = one.redraw(LineUid::CatchAll);
    assert(Set::<LineUid>::empty().remove(LineUid::CatchAll) =~= Set::empty());
    assert(!has_curve(bare.plot.curves, LineUid::Everything));
    assert(!has_curve(one.plot.curves, LineUid::CatchAll)) by {
        if has_curve(one.plot.curves, LineUid::CatchAll) {
            assert(has_curve(bare.plot.curves, LineUid::CatchAll));
        }
    }
    assert(two.plot.curves =~= seq![
        Curve { line: LineUid::Everything, points: Seq::empty() },
        Curve { line: LineUid::CatchAll, points: Seq::empty() },
    ]);
    assert forall|line: LineUid| has_curve(two.plot.curves, line) <==> two.lines.has_line(
        line,
    ) by {
        assert(!has_curve(bare.plot.curves, line));
    }
}

/// Every command that can be done keeps the state sound.
pub proof fn lemma_commanded_wf(model: Model, command: Command)
    requires
        model.wf(),
    ensures
        model.commanded(command) matches Some(after) ==> after.wf(),
{
    let both = set![model.target(command), LineUid::CatchAll];
    let last = set![LineUid::CatchAll];
    assert(last.remove(LineUid::CatchAll) =~= Set::empty());
    match command {
        Command::Add { color, pred } => {
            let uid = FilterUid { uid: model.lines.next };
            let line = LineUid::Filter(uid);
            let spec = FilterSpecView { uid: line, name: default_name(uid), color, edited: false };
            if let Some(lines) = model.lines.with_filter(spec, pred) {
                lemma_with_filter(model.lines, spec, pred);
                let changed = Model {
                    lines,
                    notices: model.notices.push(MessageView::FilterChanged { spec }),
                    ..model
                };
                assert(changed.drawn_but(both)) by {
                    assert forall|i: int|
                        0 <= i < changed.plot.curves.len() && !both.contains(
                            (#[trigger] changed.plot.curves[i]).line,
                        ) implies changed.plot.curves[i].points == changed.drawing(
                        changed.plot.curves[i].line,
                    ) by {
                        let other = model.plot.curves[i].line;
                        assert(has_curve(model.plot.curves, other));
                        assert(model.lines.has_line(other));
                        lemma_same_drawing(model, changed, other);
                    }
                }
                lemma_redraw(changed, line, both);
                assert(both.remove(line) =~= last);
                lemma_redraw(changed.redraw(line), LineUid::CatchAll, last);
                let after = changed.redraw(line).redraw(LineUid::CatchAll);
                assert forall|other: LineUid|
                    has_curve(after.plot.curves, other) <==> after.lines.has_line(other) by {
                    assert(has_curve(model.plot.curves, other) <==> model.lines.has_line(other));
                }
                assert(after.wf());
            }
        },
        Command::Remove { filter } => {
            let line = LineUid::Filter(filter);
            if let Some(lines) = model.lines.without_filter(filter) {
                lemma_without_filter(model.lines, filter);
                lemma_dropped(model.plot, line);
                let changed = Model {
                    lines,
                    plot: model.plot.dropped(line),
                    notices: model.notices.push(MessageView::FilterRemoved { uid: filter }),
                    ..model
                };
                assert(model.lines.has_line(line));
                assert(has_curve(model.plot.curves, line));
                assert(changed.drawn_but(last)) by {
                    assert forall|i: int|
                        0 <= i < changed.plot.curves.len() && !last.contains(
                            (#[trigger] changed.plot.curves[i]).line,
                        ) implies changed.plot.curves[i].points == changed.drawing(
                        changed.plot.curves[i].line,
                    ) by {
                        let curve = changed.plot.curves[i];
                        assert(model.plot.curves.contains(curve));
                        let j = choose|j: int|
                            0 <= j < model.plot.curves.len() && model.plot.curves[j] == curve;
                        assert(model.plot.curves[j].points == model.drawing(curve.line));
                        assert(has_curve(changed.plot.curves, curve.line));
                        assert(has_curve(model.plot.curves, curve.line));
                        assert(model.lines.has_line(curve.line));
                        if let LineUid::Filter(kept) = curve.line {
                            assert(has_rule(lines.rules, kept));
                        }
                        lemma_same_drawing(model, changed, curve.line);
                    }
                }
                lemma_redraw(changed, LineUid::CatchAll, last);
                let after = changed.redraw(LineUid::CatchAll);
                assert forall|other: LineUid|
                    has_curve(after.plot.curves, other) <==> after.lines.has_line(other) by {
                    assert(has_curve(model.plot.curves, other) <==> model.lines.has_line(other));
                    assert(model.lines.has_line(LineUid::CatchAll));
                    assert(has_curve(model.plot.curves, LineUid::CatchAll));
                }
                assert(after.wf());
            }
        },
        Command::Edit { uid, mutation } => {
            if let Some(lines) = model.lines.edited(uid, mutation) {
                lemma_edited(model.lines, uid, mutation);
                let changed = Model {
                    lines,
                    notices: model.notices.push(
                        MessageView::FilterChanged { spec: lines.shown(uid) },
                    ),
                    ..model
                };
                assert forall|other: LineUid|
                    has_curve(changed.plot.curves, other) <==> changed.lines.has_line(other) by {
                    assert(has_curve(model.plot.curves, other) <==> model.lines.has_line(other));
                }
                if mutation is SetPredicate {
                    assert(changed.drawn_but(both)) by {
                        assert forall|i: int|
                            0 <= i < changed.plot.curves.len() && !both.contains(
                                (#[trigger] changed.plot.curves[i]).line,
                            ) implies changed.plot.curves[i].points == changed.drawing(
                            changed.plot.curves[i].line,
                        ) by {
                            let other = model.plot.curves[i].line;
                            assert(has_curve(model.plot.curves, other));
                            assert(model.lines.has_line(other));
                            if let LineUid::Filter(kept) = other {
                                let at = rule_position(model.lines.rules, kept);
                                assert(model.lines.rules[at].spec.uid == other);
                                assert(lines.rules[at] == model.lines.rules[at]);
                            }
                            lemma_same_drawing(model, changed, other);
                        }
                    }
                    assert(model.lines.has_line(uid));
                    assert(has_curve(model.plot.curves, uid));
                    assert(model.lines.has_line(LineUid::CatchAll));
                    assert(has_curve(model.plot.curves, LineUid::CatchAll));
                    lemma_redraw(changed, uid, both);
                    assert(both.remove(uid).remove(LineUid::CatchAll) =~= Set::empty());
                    lemma_redraw(changed.redraw(uid), LineUid::CatchAll, both.remove(uid));
                    let after = changed.redraw(uid).redraw(LineUid::CatchAll);
                    assert forall|other: LineUid|
                        has_curve(after.plot.curves, other) <==> after.lines.has_line(other) by {
                        assert(has_curve(model.plot.curves, other) <==> model.lines.has_line(
                            other,
                        ));
                    }
                    assert(after.wf());
                } else {
                    assert forall|i: int| 0 <= i < changed.plot.curves.len() implies (
                    #[trigger] changed.plot.curves[i]).points == changed.drawing(
                        changed.plot.curves[i].line,
                    ) by {
                        let other = model.plot.curves[i].line;
                        lemma_same_sorting_drawing(model, changed, other);
                    }
                    assert(changed.wf());
                }
            }
        },
    }
}

/// Two states with the same journal and labels, whose engines sort alike, draw the same
/// series for every line.
pub proof fn lemma_same_sorting_drawing(lft: Model, rgt: Model, line: LineUid)
    requires
        lft.table.journal == rgt.table.journal,
        lft.labels == rgt.labels,
        same_sorting(lft.lines.rules, rgt.lines.rules),
    ensures
        lft.drawing(line) == rgt.drawing(line),
{
    let journal = lft.table.journal;
    let one = belongs(lft.lines.rules, lft.labels, line);
    let other = belongs(rgt.lines.rules, rgt.labels, line);
    assert forall|k: int| 0 <= k < journal.len() implies one(#[trigger] journal[k]) == other(
        journal[k],
    ) by {
        let record = journal[k];
        if record.labels@ < lft.labels.len() {
            lemma_same_sorting(
                lft.lines.rules,
                rgt.lines.rules,
                record,
                lft.labels[record.labels@ as int],
            );
        }
    }
    lemma_trace_agrees(journal, one, other);
}

/// A session that has received everything has nothing pending.
pub proof fn lemma_nothing_pending(model: Model)
    requires
        model.plot.wf(),
        model.notices.len() <= usize::MAX,
    ensures
        model.pending(model.cursor()) == Seq::<MessageView>::empty(),
{
    lemma_nothing_left(model.plot);
    assert(model.pending(model.cursor()) =~= Seq::<MessageView>::empty());
}

/// A change of the lines reaches every session at its next drain, before any point: the
/// session finds the message among the changes it has not received, at the rank of the change.
pub proof fn lemma_command_is_told(model: Model, command: Command, cursor: SessionCursor)
    requires
        model.wf(),
        model.commanded(command) is Some,
        cursor.notices <= model.notices.len(),
    ensures
        ({
            let after = model.commanded(command)->0;
            let rank = model.notices.len() - cursor.notices;
            &&& after.notices.len() == model.notices.len() + 1
            &&& after.notices.subrange(0, model.notices.len() as int) == model.notices
            &&& rank < after.pending(cursor).len()
            &&& after.pending(cursor)[rank] == after.notices.last()
            &&& after.notices.last() == match command {
                Command::Remove { filter } => MessageView::FilterRemoved { uid: filter },
                _ => MessageView::FilterChanged {
                    spec: after.lines.shown(model.target(command)),
                },
            }
        }),
{
    let after = model.commanded(command)->0;
    assert(after.notices.subrange(0, model.notices.len() as int) =~= model.notices);
    match command {
        Command::Add { color, pred } => {
            let uid = FilterUid { uid: model.lines.next };
            let spec = FilterSpecView {
                uid: LineUid::Filter(uid),
                name: default_name(uid),
                color,
                edited: false,
            };
            lemma_with_filter(model.lines, spec, pred);
            assert(after.lines.rules[model.lines.rules.len() as int].spec == spec);
        },
        _ => {},
    }
}

} // verus!
