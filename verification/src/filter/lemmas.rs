//! What holds of the filter engine and of the lines it gives to allocations.

use crate::filter::pred::{lemma_accepts_ignores_death, Predicate};
use crate::filter::spec::FilterSpecView;
use crate::filter::{
    classification, has_rule, line_rank, matching, rank, rule_position, same_sorting, Lines,
    Mutation, Rule,
};
use crate::labels::Labels;
use crate::store::Record;
use crate::uid::{FilterUid, LineUid};
use vstd::prelude::*;

verus! {

/// In a sound engine a user filter is found at one position only.
pub proof fn lemma_rule_position(lines: Lines, uid: FilterUid, at: int)
    requires
        lines.wf(),
        0 <= at < lines.rules.len(),
        lines.rules[at].spec.uid == LineUid::Filter(uid),
    ensures
        has_rule(lines.rules, uid),
        rule_position(lines.rules, uid) == at,
{
    let found = rule_position(lines.rules, uid);
    assert(rank(lines.rules[found]) == rank(lines.rules[at]));
}

/// The user filters found to match are those that accept the allocation, no other line and
/// none twice.
pub proof fn lemma_matching(rules: Seq<Rule>, record: Record, labels: Labels)
    requires
        forall|i: int, j: int|
            0 <= i < j < rules.len() ==> rank(#[trigger] rules[i]) < rank(#[trigger] rules[j]),
    ensures
        matching(rules, record, labels).len() <= rules.len(),
        forall|k: int|
            0 <= k < matching(rules, record, labels).len() ==> exists|i: int|
                0 <= i < rules.len() && (#[trigger] rules[i]).spec.uid == (#[trigger] matching(
                    rules,
                    record,
                    labels,
                )[k]) && rules[i].pred.accepts(record, labels),
        forall|i: int|
            0 <= i < rules.len() && (#[trigger] rules[i]).pred.accepts(record, labels)
                ==> matching(rules, record, labels).contains(rules[i].spec.uid),
        forall|k: int, l: int|
            0 <= k < l < matching(rules, record, labels).len() ==> line_rank(
                #[trigger] matching(rules, record, labels)[k],
            ) < line_rank(#[trigger] matching(rules, record, labels)[l]),
    decreases rules.len(),
{
    let hits = matching(rules, record, labels);
    if rules.len() > 0 {
        let front = rules.drop_last();
        let before = matching(front, record, labels);
        let last = rules.last();
        lemma_matching(front, record, labels);
        assert forall|k: int| 0 <= k < before.len() implies line_rank(#[trigger] before[k])
            < rank(last) && exists|i: int|
            0 <= i < rules.len() && (#[trigger] rules[i]).spec.uid == before[k]
                && rules[i].pred.accepts(record, labels) by {
            let i = choose|i: int|
                0 <= i < front.len() && (#[trigger] front[i]).spec.uid == before[k]
                    && front[i].pred.accepts(record, labels);
            assert(rules[i] == front[i]);
            assert(rank(rules[i]) < rank(rules[rules.len() - 1]));
        }
        assert forall|k: int| 0 <= k < hits.len() implies exists|i: int|
            0 <= i < rules.len() && (#[trigger] rules[i]).spec.uid == (#[trigger] hits[k])
                && rules[i].pred.accepts(record, labels) by {
            if k < before.len() {
                assert(hits[k] == before[k]);
            } else {
                assert(rules[rules.len() - 1].spec.uid == hits[k]);
            }
        }
        assert forall|i: int|
            0 <= i < rules.len() && (#[trigger] rules[i]).pred.accepts(
                record,
                labels,
            ) implies hits.contains(rules[i].spec.uid) by {
            if i < front.len() {
                assert(front[i] == rules[i]);
                let k = choose|k: int| 0 <= k < before.len() && before[k] == front[i].spec.uid;
                assert(hits[k] == rules[i].spec.uid);
            } else {
                assert(hits[hits.len() - 1] == rules[i].spec.uid);
            }
        }
        assert forall|k: int, l: int| 0 <= k < l < hits.len() implies line_rank(
            #[trigger] hits[k],
        ) < line_rank(#[trigger] hits[l]) by {
            if l < before.len() {
                assert(hits[k] == before[k] && hits[l] == before[l]);
            } else {
                assert(hits[k] == before[k]);
                assert(hits[l] == last.spec.uid);
            }
        }
    }
}

/// Every allocation belongs to *everything*; it belongs to *catch-all* exactly when no user
/// filter accepts it, and to a user filter exactly when that filter accepts it; it belongs to
/// no line twice.
pub proof fn lemma_classification(lines: Lines, record: Record, labels: Labels)
    requires
        lines.wf(),
    ensures
        classification(lines.rules, record, labels).contains(LineUid::Everything),
        classification(lines.rules, record, labels).contains(LineUid::CatchAll) <==> forall|
            i: int,
        |
            0 <= i < lines.rules.len() ==> !(#[trigger] lines.rules[i]).pred.accepts(
                record,
                labels,
            ),
        forall|i: int|
            0 <= i < lines.rules.len() ==> (classification(lines.rules, record, labels).contains(
                (#[trigger] lines.rules[i]).spec.uid,
            ) <==> lines.rules[i].pred.accepts(record, labels)),
        forall|line: LineUid|
            classification(lines.rules, record, labels).contains(line) ==> lines.has_line(line),
        classification(lines.rules, record, labels).no_duplicates(),
{
    let rules = lines.rules;
    let hits = matching(rules, record, labels);
    let found = classification(rules, record, labels);
    lemma_matching(rules, record, labels);
    assert(found[0] == LineUid::Everything);
    assert forall|k: int| 0 <= k < hits.len() implies line_rank(#[trigger] hits[k]) >= 0 by {
        let i = choose|i: int|
            0 <= i < rules.len() && (#[trigger] rules[i]).spec.uid == hits[k]
                && rules[i].pred.accepts(record, labels);
        assert(0 <= rank(rules[i]));
    }
    if hits.len() == 0 {
        assert(found[1] == LineUid::CatchAll);
        assert forall|i: int| 0 <= i < rules.len() implies !(#[trigger] rules[i]).pred.accepts(
            record,
            labels,
        ) by {
            if rules[i].pred.accepts(record, labels) {
                assert(hits.contains(rules[i].spec.uid));
            }
        }
        assert forall|i: int| 0 <= i < rules.len() implies !found.contains(
            (#[trigger] rules[i]).spec.uid,
        ) by {
            assert(0 <= rank(rules[i]));
        }
    } else {
        assert forall|k: int| 1 <= k < found.len() implies found[k] == hits[k - 1]
            && line_rank(#[trigger] found[k]) >= 0 by {}
        let i = choose|i: int|
            0 <= i < rules.len() && (#[trigger] rules[i]).spec.uid == hits[0]
                && rules[i].pred.accepts(record, labels);
        assert(rules[i].pred.accepts(record, labels));
        assert forall|i: int| 0 <= i < rules.len() implies (found.contains(
            (#[trigger] rules[i]).spec.uid,
        ) <==> rules[i].pred.accepts(record, labels)) by {
            assert(0 <= rank(rules[i]));
            if rules[i].pred.accepts(record, labels) {
                let k = choose|k: int| 0 <= k < hits.len() && hits[k] == rules[i].spec.uid;
                assert(found[k + 1] == rules[i].spec.uid);
            }
            if found.contains(rules[i].spec.uid) {
                let k = choose|k: int| 0 <= k < found.len() && found[k] == rules[i].spec.uid;
                assert(k >= 1);
                let j = choose|j: int|
                    0 <= j < rules.len() && (#[trigger] rules[j]).spec.uid == hits[k - 1]
                        && rules[j].pred.accepts(record, labels);
                assert(rank(rules[j]) == rank(rules[i]));
                assert(j == i);
            }
        }
        assert forall|k: int, l: int| 0 <= k < l < found.len() implies found[k] != found[l] by {
            if k >= 1 {
                assert(line_rank(hits[k - 1]) < line_rank(hits[l - 1]));
            } else {
                assert(line_rank(found[l]) >= 0);
            }
        }
    }
    assert forall|line: LineUid| found.contains(line) implies lines.has_line(line) by {
        if let LineUid::Filter(uid) = line {
            let k = choose|k: int| 0 <= k < found.len() && found[k] == line;
            assert(hits.len() > 0 && k >= 1);
            let j = choose|j: int|
                0 <= j < rules.len() && (#[trigger] rules[j]).spec.uid == hits[k - 1]
                    && rules[j].pred.accepts(record, labels);
            assert(rules[j].spec.uid == LineUid::Filter(uid));
        }
    }
}

/// An allocation belongs to the same lines before and after its death.
pub proof fn lemma_classification_ignores_death(
    rules: Seq<Rule>,
    record: Record,
    labels: Labels,
    time: u64,
)
    ensures
        matching(rules, record.dead_at(time), labels) == matching(rules, record, labels),
        classification(rules, record.dead_at(time), labels) == classification(
            rules,
            record,
            labels,
        ),
    decreases rules.len(),
{
    if rules.len() > 0 {
        lemma_classification_ignores_death(rules.drop_last(), record, labels, time);
        lemma_accepts_ignores_death(rules.last().pred, record, labels, time);
    }
}

/// Rules that sort alike give every allocation the same lines.
pub proof fn lemma_same_sorting(lft: Seq<Rule>, rgt: Seq<Rule>, record: Record, labels: Labels)
    requires
        same_sorting(lft, rgt),
    ensures
        matching(lft, record, labels) == matching(rgt, record, labels),
        classification(lft, record, labels) == classification(rgt, record, labels),
    decreases lft.len(),
{
    if lft.len() > 0 {
        assert(lft[lft.len() - 1].pred == rgt[rgt.len() - 1].pred);
        assert forall|i: int| 0 <= i < lft.drop_last().len() implies (#[trigger] lft.drop_last()[i]).spec.uid
            == rgt.drop_last()[i].spec.uid && lft.drop_last()[i].pred == rgt.drop_last()[i].pred by {
            assert(lft.drop_last()[i] == lft[i]);
        }
        lemma_same_sorting(lft.drop_last(), rgt.drop_last(), record, labels);
    }
}

/// Whether an allocation belongs to a user filter depends on that filter alone, and every
/// allocation belongs to *everything*: two engines that hold the same filter with the same
/// predicate agree on it.
pub proof fn lemma_same_membership(
    lft: Lines,
    rgt: Lines,
    line: LineUid,
    record: Record,
    labels: Labels,
)
    requires
        lft.wf(),
        rgt.wf(),
        line != LineUid::CatchAll,
        line matches LineUid::Filter(uid) ==> has_rule(lft.rules, uid) && has_rule(rgt.rules, uid)
            && lft.rules[rule_position(lft.rules, uid)].pred == rgt.rules[rule_position(
            rgt.rules,
            uid,
        )].pred,
    ensures
        classification(lft.rules, record, labels).contains(line) == classification(
            rgt.rules,
            record,
            labels,
        ).contains(line),
{
    lemma_classification(lft, record, labels);
    lemma_classification(rgt, record, labels);
    if let LineUid::Filter(uid) = line {
        let i = rule_position(lft.rules, uid);
        let j = rule_position(rgt.rules, uid);
        assert(lft.rules[i].spec.uid == line);
        assert(rgt.rules[j].spec.uid == line);
    }
}

/// Adding a filter keeps the engine sound, and keeps every filter it had where it was.
pub proof fn lemma_with_filter(lines: Lines, spec: FilterSpecView, pred: Predicate)
    requires
        lines.wf(),
        lines.with_filter(spec, pred) is Some,
    ensures
        lines.with_filter(spec, pred)->0.wf(),
        forall|uid: FilterUid|
            has_rule(lines.with_filter(spec, pred)->0.rules, uid) <==> (has_rule(lines.rules, uid)
                || spec.uid == LineUid::Filter(uid)),
        forall|uid: FilterUid| #[trigger]
            has_rule(lines.rules, uid) ==> rule_position(
                lines.with_filter(spec, pred)->0.rules,
                uid,
            ) == rule_position(lines.rules, uid) && spec.uid != LineUid::Filter(uid),
        forall|uid: FilterUid|
            spec.uid == LineUid::Filter(uid) ==> rule_position(
                lines.with_filter(spec, pred)->0.rules,
                uid,
            ) == lines.rules.len(),
{
    let after = lines.with_filter(spec, pred)->0;
    let last = lines.rules.len() as int;
    assert(after.rules[last].spec == spec);
    assert forall|i: int| 0 <= i < after.rules.len() implies 0 <= rank(
        #[trigger] after.rules[i],
    ) < after.next by {
        if i < last {
            assert(after.rules[i] == lines.rules[i]);
        }
    }
    assert forall|i: int, j: int| 0 <= i < j < after.rules.len() implies rank(
        #[trigger] after.rules[i],
    ) < rank(#[trigger] after.rules[j]) by {
        assert(after.rules[i] == lines.rules[i]);
        if j < last {
            assert(after.rules[j] == lines.rules[j]);
        }
    }
    assert forall|uid: FilterUid| #[trigger] has_rule(lines.rules, uid) implies has_rule(
        after.rules,
        uid,
    ) && rule_position(after.rules, uid) == rule_position(lines.rules, uid) && spec.uid
        != LineUid::Filter(uid) by {
        let at = rule_position(lines.rules, uid);
        assert(after.rules[at] == lines.rules[at]);
        lemma_rule_position(after, uid, at);
        assert(rank(lines.rules[at]) < lines.next);
    }
    assert forall|uid: FilterUid| has_rule(after.rules, uid) implies (has_rule(lines.rules, uid)
        || spec.uid == LineUid::Filter(uid)) by {
        let at = rule_position(after.rules, uid);
        if at < last {
            assert(lines.rules[at] == after.rules[at]);
        }
    }
    assert forall|uid: FilterUid| spec.uid == LineUid::Filter(uid) implies has_rule(
        after.rules,
        uid,
    ) && rule_position(after.rules, uid) == last by {
        lemma_rule_position(after, uid, last);
    }
}

/// Removing a filter keeps the engine sound, and keeps every other filter with its predicate.
pub proof fn lemma_without_filter(lines: Lines, gone: FilterUid)
    requires
        lines.wf(),
        lines.without_filter(gone) is Some,
    ensures
        lines.without_filter(gone)->0.wf(),
        forall|uid: FilterUid|
            has_rule(lines.without_filter(gone)->0.rules, uid) <==> (has_rule(lines.rules, uid)
                && uid != gone),
        forall|uid: FilterUid| #[trigger]
            has_rule(lines.without_filter(gone)->0.rules, uid) ==> lines.without_filter(
                gone,
            )->0.rules[rule_position(lines.without_filter(gone)->0.rules, uid)]
                == lines.rules[rule_position(lines.rules, uid)],
{
    let after = lines.without_filter(gone)->0;
    let at = rule_position(lines.rules, gone);
    assert(lines.rules[at].spec.uid == LineUid::Filter(gone));
    assert forall|i: int| 0 <= i < after.rules.len() implies after.rules[i] == lines.rules[if i
        < at {
        i
    } else {
        i + 1
    }] by {}
    assert forall|i: int| 0 <= i < after.rules.len() implies 0 <= rank(
        #[trigger] after.rules[i],
    ) < after.next by {
        let a = if i < at { i } else { i + 1 };
        assert(after.rules[i] == lines.rules[a]);
    }
    assert forall|i: int, j: int| 0 <= i < j < after.rules.len() implies rank(
        #[trigger] after.rules[i],
    ) < rank(#[trigger] after.rules[j]) by {
        let a = if i < at { i } else { i + 1 };
        let b = if j < at { j } else { j + 1 };
        assert(after.rules[i] == lines.rules[a]);
        assert(after.rules[j] == lines.rules[b]);
    }
    assert forall|uid: FilterUid| #[trigger] has_rule(after.rules, uid) implies has_rule(
        lines.rules,
        uid,
    ) && uid != gone && after.rules[rule_position(after.rules, uid)]
        == lines.rules[rule_position(lines.rules, uid)] by {
        let i = rule_position(after.rules, uid);
        let a = if i < at { i } else { i + 1 };
        assert(after.rules[i] == lines.rules[a]);
        lemma_rule_position(lines, uid, a);
        if uid == gone {
            assert(rank(lines.rules[a]) == rank(lines.rules[at]));
        }
    }
    assert forall|uid: FilterUid| has_rule(lines.rules, uid) && uid != gone implies has_rule(
        after.rules,
        uid,
    ) by {
        let a = rule_position(lines.rules, uid);
        let i = if a < at { a } else { a - 1 };
        assert(after.rules[i] == lines.rules[a]);
    }
}

/// Editing a line keeps the engine sound and its filters in place; only a new predicate
/// changes how allocations are sorted, and only for the filter that receives it.
pub proof fn lemma_edited(lines: Lines, line: LineUid, mutation: Mutation)
    requires
        lines.wf(),
        lines.edited(line, mutation) is Some,
    ensures
        lines.edited(line, mutation)->0.wf(),
        lines.has_line(line),
        lines.edited(line, mutation)->0.rules.len() == lines.rules.len(),
        forall|i: int|
            0 <= i < lines.rules.len() ==> (#[trigger] lines.edited(
                line,
                mutation,
            )->0.rules[i]).spec.uid == lines.rules[i].spec.uid,
        forall|i: int|
            0 <= i < lines.rules.len() && lines.rules[i].spec.uid != line ==> (
            #[trigger] lines.edited(line, mutation)->0.rules[i]) == lines.rules[i],
        !(mutation is SetPredicate) ==> same_sorting(
            lines.rules,
            lines.edited(line, mutation)->0.rules,
        ),
        forall|uid: FilterUid|
            has_rule(lines.edited(line, mutation)->0.rules, uid) <==> has_rule(lines.rules, uid),
        forall|uid: FilterUid| #[trigger]
            has_rule(lines.rules, uid) ==> rule_position(
                lines.edited(line, mutation)->0.rules,
                uid,
            ) == rule_position(lines.rules, uid),
{
    let after = lines.edited(line, mutation)->0;
    match line {
        LineUid::Filter(target) => {
            let at = rule_position(lines.rules, target);
            assert(lines.rules[at].spec.uid == line);
            assert(after.rules[at].spec.uid == line);
            assert forall|i: int| 0 <= i < lines.rules.len() implies (
            #[trigger] after.rules[i]).spec.uid == lines.rules[i].spec.uid && rank(
                after.rules[i],
            ) == rank(lines.rules[i]) by {}
            assert forall|i: int|
                0 <= i < lines.rules.len() && lines.rules[i].spec.uid != line implies (
            #[trigger] after.rules[i]) == lines.rules[i] by {}
            assert forall|i: int| 0 <= i < after.rules.len() implies 0 <= rank(
                #[trigger] after.rules[i],
            ) < after.next by {
                assert(rank(after.rules[i]) == rank(lines.rules[i]));
            }
            assert forall|i: int, j: int| 0 <= i < j < after.rules.len() implies rank(
                #[trigger] after.rules[i],
            ) < rank(#[trigger] after.rules[j]) by {
                assert(rank(after.rules[i]) == rank(lines.rules[i]));
                assert(rank(after.rules[j]) == rank(lines.rules[j]));
            }
        },
        _ => {},
    }
    assert forall|uid: FilterUid| #[trigger] has_rule(lines.rules, uid) implies has_rule(
        after.rules,
        uid,
    ) && rule_position(after.rules, uid) == rule_position(lines.rules, uid) by {
        let at = rule_position(lines.rules, uid);
        assert(after.rules[at].spec.uid == lines.rules[at].spec.uid);
        lemma_rule_position(after, uid, at);
    }
    assert forall|uid: FilterUid| has_rule(after.rules, uid) implies has_rule(
        lines.rules,
        uid,
    ) by {
        let at = rule_position(after.rules, uid);
        assert(after.rules[at].spec.uid == lines.rules[at].spec.uid);
    }
}

} // verus!
