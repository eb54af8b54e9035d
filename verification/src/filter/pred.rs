//! Filter predicates.
//!
//! A predicate is a tree of conjunctions and disjunctions over elementary conditions. The
//! conditions read what is fixed when an allocation is born: its size, its labels and its time
//! of birth. So an allocation belongs to the same lines before and after its death.

use crate::labels::Labels;
use crate::store::Record;
use vstd::prelude::*;

verus! {

/// How a value is held against a bound.
#[derive(Debug, Clone, Copy, PartialEq, Eq, Structural, Hash)]
pub enum Relation {
    /// The value is strictly below the bound.
    Below,
    /// The value is at most the bound.
    AtMost,
    /// The value is the bound.
    Equal,
    /// The value is at least the bound.
    AtLeast,
    /// The value is strictly above the bound.
    Above,
}

impl Relation {
    /// True if `value` stands in this relation to `bound`.
    pub open spec fn spec_relates(&self, value: u64, bound: u64) -> bool {
        match *self {
            Relation::Below => value < bound,
            Relation::AtMost => value <= bound,
            Relation::Equal => value == bound,
            Relation::AtLeast => value >= bound,
            Relation::Above => value > bound,
        }
    }

    /// True if `value` stands in this relation to `bound`.
    #[verifier::when_used_as_spec(spec_relates)]
    pub fn relates(&self, value: u64, bound: u64) -> (res: bool)
        ensures
            res == self.spec_relates(value, bound),
    {
        match self {
            Relation::Below => value < bound,
            Relation::AtMost => value <= bound,
            Relation::Equal => value == bound,
            Relation::AtLeast => value >= bound,
            Relation::Above => value > bound,
        }
    }
}

/// An elementary condition on an allocation.
#[derive(Debug, Clone, PartialEq, Eq)]
pub enum Condition {
    /// The size in bytes stands in the relation to the bound.
    Size(Relation, u64),
    /// The time of birth stands in the relation to the bound.
    Birth(Relation, u64),
    /// The label is one of the allocation's labels.
    Label(String),
}

impl Condition {
    /// True if the condition holds of `record`, whose labels are `labels`.
    pub open spec fn holds(&self, record: Record, labels: Labels) -> bool {
        match *self {
            Condition::Size(relation, bound) => relation.relates(record.size, bound),
            Condition::Birth(relation, bound) => relation.relates(record.birth, bound),
            Condition::Label(label) => labels.contains(label@),
        }
    }

    /// Evaluates the condition on `record`, whose labels are `labels`.
    #[verifier::loop_isolation(false)]
    pub fn eval(&self, record: &Record, labels: &Vec<String>) -> (res: bool)
        ensures
            res == self.holds(*record, labels.deep_view()),
    {
        match self {
            Condition::Size(relation, bound) => relation.relates(record.size, *bound),
            Condition::Birth(relation, bound) => relation.relates(record.birth, *bound),
            Condition::Label(label) => {
                let mut i: usize = 0;
                while i < labels.len()
                    invariant
                        i <= labels.len(),
                        forall|j: int| 0 <= j < i ==> labels.deep_view()[j] != label@,
                    decreases labels.len() - i,
                {
                    if labels[i] == *label {
                        assert(labels.deep_view()[i as int] == label@);
                        assert(labels.deep_view().contains(label@));
                        return true;
                    }
                    i += 1;
                }
                false
            },
        }
    }
}

/// A filter predicate.
#[derive(Debug, PartialEq, Eq)]
pub enum Predicate {
    /// A single condition.
    Test(Condition),
    /// All of the predicates hold; true of the empty list.
    All(Vec<Predicate>),
    /// One of the predicates holds; false of the empty list.
    Any(Vec<Predicate>),
}

impl Predicate {
    /// True if the predicate accepts `record`, whose labels are `labels`.
    pub open spec fn accepts(&self, record: Record, labels: Labels) -> bool
        decreases self,
    {
        match self {
            Predicate::Test(condition) => condition.holds(record, labels),
            Predicate::All(parts) => forall|i: int|
                0 <= i < parts@.len() ==> (#[trigger] parts@[i]).accepts(record, labels),
            Predicate::Any(parts) => exists|i: int|
                0 <= i < parts@.len() && (#[trigger] parts@[i]).accepts(record, labels),
        }
    }

    /// Evaluates the predicate on `record`, whose labels are `labels`. Nothing is changed.
    #[verifier::loop_isolation(false)]
    pub fn eval(&self, record: &Record, labels: &Vec<String>) -> (res: bool)
        ensures
            res == self.accepts(*record, labels.deep_view()),
        decreases self,
    {
        match self {
            Predicate::Test(condition) => condition.eval(record, labels),
            Predicate::All(parts) => {
                let mut i: usize = 0;
                while i < parts.len()
                    invariant
                        i <= parts.len(),
                        forall|j: int|
                            0 <= j < i ==> (#[trigger] parts@[j]).accepts(
                                *record,
                                labels.deep_view(),
                            ),
                    decreases parts.len() - i,
                {
                    proof {
                        vstd::std_specs::vec::axiom_vec_index_decreases(*parts, i as int);
                    }
                    if !parts[i].eval(record, labels) {
                        assert(!parts@[i as int].accepts(*record, labels.deep_view()));
                        return false;
                    }
                    i += 1;
                }
                true
            },
            Predicate::Any(parts) => {
                let mut i: usize = 0;
                while i < parts.len()
                    invariant
                        i <= parts.len(),
                        forall|j: int|
                            0 <= j < i ==> !(#[trigger] parts@[j]).accepts(
                                *record,
                                labels.deep_view(),
                            ),
                    decreases parts.len() - i,
                {
                    proof {
                        vstd::std_specs::vec::axiom_vec_index_decreases(*parts, i as int);
                    }
                    if parts[i].eval(record, labels) {
                        assert(parts@[i as int].accepts(*record, labels.deep_view()));
                        return true;
                    }
                    i += 1;
                }
                false
            },
        }
    }
}

/// A predicate reads nothing that death changes: it accepts a dead allocation exactly when it
/// accepted it alive.
pub proof fn lemma_accepts_ignores_death(
    predicate: Predicate,
    record: Record,
    labels: Labels,
    time: u64,
)
    ensures
        predicate.accepts(record.dead_at(time), labels) == predicate.accepts(record, labels),
    decreases predicate,
{
    match predicate {
        Predicate::Test(condition) => {},
        Predicate::All(parts) => {
            assert forall|i: int| 0 <= i < parts@.len() implies (#[trigger] parts@[i]).accepts(
                record.dead_at(time),
                labels,
            ) == parts@[i].accepts(record, labels) by {
                lemma_accepts_ignores_death(parts@[i], record, labels, time);
            }
        },
        Predicate::Any(parts) => {
            assert forall|i: int| 0 <= i < parts@.len() implies (#[trigger] parts@[i]).accepts(
                record.dead_at(time),
                labels,
            ) == parts@[i].accepts(record, labels) by {
                lemma_accepts_ignores_death(parts@[i], record, labels, time);
            }
        },
    }
}

} // verus!
