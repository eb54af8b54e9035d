//! Filters: the rules that sort allocations into the lines of a chart.
//!
//! A session has two built-in lines, *everything* and *catch-all*, and the filters its users
//! create. Every allocation belongs to *everything*; it belongs to each user filter whose
//! predicate accepts it, possibly to several; it belongs to *catch-all* exactly when no user
//! filter takes it. User filters are kept, evaluated and listed in the order of their creation.

pub mod lemmas;
pub mod pred;
pub mod spec;

use crate::color::Color;
use crate::error::Error;
use crate::filter::lemmas::lemma_rule_position;
use crate::filter::pred::Predicate;
use crate::filter::spec::{
    catch_all_view, default_name, everything_view, FilterSpec, FilterSpecView,
};
use crate::labels::{Labels, Mem};
use crate::store::Record;
use crate::uid::{FilterUid, LineUid};
use vstd::prelude::*;

verus! {

/// A user filter: a specification and the predicate that goes with it.
#[derive(Debug, PartialEq, Eq)]
pub struct Filter {
    /// How the filter is shown.
    pub spec: FilterSpec,
    /// What the filter accepts.
    pub pred: Predicate,
}

/// A user filter as the contracts see it.
pub struct Rule {
    /// How the filter is shown.
    pub spec: FilterSpecView,
    /// What the filter accepts.
    pub pred: Predicate,
}

impl View for Filter {
    type V = Rule;

    open spec fn view(&self) -> Rule {
        Rule { spec: self.spec@, pred: self.pred }
    }
}

/// A change that a client asks for on one line.
#[derive(Debug, PartialEq, Eq)]
pub enum Mutation {
    /// Gives the line a new name.
    Rename(String),
    /// Gives the line a new color.
    Recolor(Color),
    /// Sets or clears the `edited` flag of the line.
    SetEdited(bool),
    /// Gives a user filter a new predicate; the built-in lines have none.
    SetPredicate(Predicate),
}

impl Mutation {
    /// True if the mutation changes which allocations a line takes.
    pub fn is_structural(&self) -> (res: bool)
        ensures
            res == (*self is SetPredicate),
    {
        match self {
            Mutation::SetPredicate(_) => true,
            _ => false,
        }
    }
}

/// The specification `spec` after `mutation`; a new predicate leaves it as it is.
pub open spec fn touched(spec: FilterSpecView, mutation: Mutation) -> FilterSpecView {
    match mutation {
        Mutation::Rename(name) => FilterSpecView { name: name@, ..spec },
        Mutation::Recolor(color) => FilterSpecView { color, ..spec },
        Mutation::SetEdited(edited) => FilterSpecView { edited, ..spec },
        Mutation::SetPredicate(_) => spec,
    }
}

/// The rule `rule` after `mutation`.
pub open spec fn amended(rule: Rule, mutation: Mutation) -> Rule {
    match mutation {
        Mutation::SetPredicate(pred) => Rule { pred, ..rule },
        _ => Rule { spec: touched(rule.spec, mutation), ..rule },
    }
}

/// True if one of `rules` is the filter `uid`.
pub open spec fn has_rule(rules: Seq<Rule>, uid: FilterUid) -> bool {
    exists|i: int| 0 <= i < rules.len() && (#[trigger] rules[i]).spec.uid == LineUid::Filter(uid)
}

/// Position in `rules` of the filter `uid`.
pub open spec fn rule_position(rules: Seq<Rule>, uid: FilterUid) -> int {
    choose|i: int| 0 <= i < rules.len() && (#[trigger] rules[i]).spec.uid == LineUid::Filter(uid)
}

/// Rank of creation of the user filter behind `line`, negative for a built-in line.
pub open spec fn line_rank(line: LineUid) -> int {
    match line {
        LineUid::Filter(uid) => uid.uid as int,
        _ => -1,
    }
}

/// Rank of creation of a user filter.
pub open spec fn rank(rule: Rule) -> int {
    line_rank(rule.spec.uid)
}

/// The user filters among `rules` that accept `record`, whose labels are `labels`, in order.
pub open spec fn matching(rules: Seq<Rule>, record: Record, labels: Labels) -> Seq<LineUid>
    decreases rules.len(),
{
    if rules.len() == 0 {
        Seq::empty()
    } else {
        let before = matching(rules.drop_last(), record, labels);
        if rules.last().pred.accepts(record, labels) {
            before.push(rules.last().spec.uid)
        } else {
            before
        }
    }
}

/// The lines that `record`, whose labels are `labels`, belongs to: *everything*, then the user
/// filters that accept it in order of creation, or *catch-all* if there is none.
pub open spec fn classification(rules: Seq<Rule>, record: Record, labels: Labels) -> Seq<
    LineUid,
> {
    let hits = matching(rules, record, labels);
    if hits.len() == 0 {
        seq![LineUid::Everything, LineUid::CatchAll]
    } else {
        seq![LineUid::Everything] + hits
    }
}

/// The filter engine as the contracts see it.
pub struct Lines {
    /// Specification of the line of all allocations.
    pub everything: FilterSpecView,
    /// Specification of the line of what the user filters miss.
    pub catch_all: FilterSpecView,
    /// The user filters, in order of creation.
    pub rules: Seq<Rule>,
    /// Rank of the next user filter.
    pub next: u64,
}

impl Lines {
    /// The engine at the start of a session: the two built-in lines and no user filter.
    pub open spec fn initial() -> Lines {
        Lines {
            everything: everything_view(),
            catch_all: catch_all_view(),
            rules: Seq::empty(),
            next: 0,
        }
    }

    /// What holds of every engine: there is one line of each built-in kind, and the user
    /// filters carry distinct identifiers that grow with the order of creation.
    pub open spec fn wf(self) -> bool {
        &&& self.everything.uid == LineUid::Everything
        &&& self.catch_all.uid == LineUid::CatchAll
        &&& forall|i: int|
            0 <= i < self.rules.len() ==> 0 <= rank(#[trigger] self.rules[i]) < self.next
        &&& forall|i: int, j: int|
            0 <= i < j < self.rules.len() ==> rank(#[trigger] self.rules[i]) < rank(
                #[trigger] self.rules[j],
            )
    }

    /// The specifications of all lines in the order they are shown: *everything*, the user
    /// filters in order of creation, *catch-all*.
    pub open spec fn listing(self) -> Seq<FilterSpecView> {
        seq![self.everything] + self.rules.map_values(|rule: Rule| rule.spec) + seq![
            self.catch_all,
        ]
    }

    /// True if the engine has the line `line`.
    pub open spec fn has_line(self, line: LineUid) -> bool {
        match line {
            LineUid::Filter(uid) => has_rule(self.rules, uid),
            _ => true,
        }
    }

    /// The specification of the line `line`, which the engine has.
    pub open spec fn shown(self, line: LineUid) -> FilterSpecView {
        match line {
            LineUid::Everything => self.everything,
            LineUid::CatchAll => self.catch_all,
            LineUid::Filter(uid) => self.rules[rule_position(self.rules, uid)].spec,
        }
    }

    /// The engine with one more user filter, if `spec` may join: it must carry the identifier
    /// of a user filter that is not older than any identifier handed out so far.
    pub open spec fn with_filter(self, spec: FilterSpecView, pred: Predicate) -> Option<Lines> {
        match spec.uid {
            LineUid::Filter(uid) => if self.next <= uid.uid < u64::MAX {
                Some(
                    Lines {
                        rules: self.rules.push(Rule { spec, pred }),
                        next: (uid.uid + 1) as u64,
                        ..self
                    },
                )
            } else {
                None
            },
            _ => None,
        }
    }

    /// The engine without the user filter `uid`, if it has it.
    pub open spec fn without_filter(self, uid: FilterUid) -> Option<Lines> {
        if has_rule(self.rules, uid) {
            Some(Lines { rules: self.rules.remove(rule_position(self.rules, uid)), ..self })
        } else {
            None
        }
    }

    /// The engine after `mutation` on `line`, if the line exists and can take it: the built-in
    /// lines have no predicate to replace.
    pub open spec fn edited(self, line: LineUid, mutation: Mutation) -> Option<Lines> {
        match line {
            LineUid::Everything => if mutation is SetPredicate {
                None
            } else {
                Some(Lines { everything: touched(self.everything, mutation), ..self })
            },
            LineUid::CatchAll => if mutation is SetPredicate {
                None
            } else {
                Some(Lines { catch_all: touched(self.catch_all, mutation), ..self })
            },
            LineUid::Filter(uid) => if has_rule(self.rules, uid) {
                let at = rule_position(self.rules, uid);
                Some(Lines { rules: self.rules.update(at, amended(self.rules[at], mutation)), ..self })
            } else {
                None
            },
        }
    }
}

/// The filter engine.
pub struct Filters {
    everything: FilterSpec,
    catch_all: FilterSpec,
    filters: Vec<Filter>,
    next: u64,
}

impl View for Filters {
    type V = Lines;

    closed spec fn view(&self) -> Lines {
        Lines {
            everything: self.everything@,
            catch_all: self.catch_all@,
            rules: self.filters@.map_values(|filter: Filter| filter@),
            next: self.next,
        }
    }
}

impl Filters {
    /// The engine is sound.
    pub open spec fn wf(&self) -> bool {
        self@.wf()
    }

    /// The engine at the start of a session.
    pub fn new() -> (res: Self)
        ensures
            res.wf(),
            res@ == Lines::initial(),
    {
        let res = Filters {
            everything: FilterSpec::new_everything(),
            catch_all: FilterSpec::new_catch_all(),
            filters: Vec::new(),
            next: 0,
        };
        assert(res@.rules =~= Seq::empty());
        res
    }

    /// Number of user filters.
    pub fn len(&self) -> (res: usize)
        ensures
            res == self@.rules.len(),
    {
        self.filters.len()
    }

    /// The identifier that the next user filter should carry, if one is left.
    pub fn next_uid(&self) -> (res: Option<FilterUid>)
        ensures
            res == if self@.next < u64::MAX {
                Some(FilterUid { uid: self@.next })
            } else {
                None
            },
    {
        if self.next < u64::MAX {
            Some(FilterUid::new(self.next))
        } else {
            None
        }
    }

    /// Position of the user filter `uid`, if the engine has it.
    fn find(&self, uid: FilterUid) -> (res: Option<usize>)
        ensures
            match res {
                Some(at) => has_rule(self@.rules, uid) && at < self@.rules.len()
                    && self@.rules[at as int].spec.uid == LineUid::Filter(uid),
                None => !has_rule(self@.rules, uid),
            },
    {
        let mut i: usize = 0;
        while i < self.filters.len()
            invariant
                i <= self.filters.len(),
                forall|j: int|
                    0 <= j < i ==> (#[trigger] self@.rules[j]).spec.uid != LineUid::Filter(uid),
            decreases self.filters.len() - i,
        {
            if self.filters[i].spec.uid() == LineUid::Filter(uid) {
                assert(self@.rules[i as int].spec.uid == LineUid::Filter(uid));
                return Some(i);
            }
            i += 1;
        }
        None
    }

    /// The specification of the line `line`, if the engine has it.
    pub fn spec_of(&self, line: LineUid) -> (res: Option<&FilterSpec>)
        requires
            self.wf(),
        ensures
            match res {
                Some(spec) => self@.has_line(line) && spec@ == self@.shown(line),
                None => !self@.has_line(line),
            },
    {
        match line {
            LineUid::Everything => Some(&self.everything),
            LineUid::CatchAll => Some(&self.catch_all),
            LineUid::Filter(uid) => match self.find(uid) {
                Some(at) => {
                    proof {
                        lemma_rule_position(self@, uid, at as int);
                    }
                    Some(&self.filters[at].spec)
                },
                None => None,
            },
        }
    }

    /// The specifications of all lines in the order they are shown.
    pub fn list(&self) -> (res: Vec<FilterSpec>)
        ensures
            res@.map_values(|spec: FilterSpec| spec@) == self@.listing(),
    {
        let mut res: Vec<FilterSpec> = Vec::new();
        res.push(self.everything.duplicate());
        let mut i: usize = 0;
        while i < self.filters.len()
            invariant
                i <= self.filters.len(),
                res@.len() == i + 1,
                res@[0]@ == self@.everything,
                forall|j: int| 1 <= j <= i ==> (#[trigger] res@[j])@ == self@.rules[j - 1].spec,
            decreases self.filters.len() - i,
        {
            res.push(self.filters[i].spec.duplicate());
            i += 1;
        }
        res.push(self.catch_all.duplicate());
        proof {
            let shown = res@.map_values(|spec: FilterSpec| spec@);
            let wanted = self@.listing();
            assert(shown.len() == wanted.len());
            assert forall|j: int| 0 <= j < shown.len() implies shown[j] == wanted[j] by {
                if 1 <= j <= i {
                    assert(res@[j]@ == self@.rules[j - 1].spec);
                }
            }
            assert(shown =~= wanted);
        }
        res
    }

    /// The lines that `record` belongs to, given its labels.
    pub fn classify_with(&self, record: &Record, labels: &Vec<String>) -> (res: Vec<LineUid>)
        ensures
            res@ == classification(self@.rules, *record, labels.deep_view()),
    {
        let mut res: Vec<LineUid> = Vec::new();
        res.push(LineUid::Everything);
        let mut i: usize = 0;
        while i < self.filters.len()
            invariant
                i <= self.filters.len(),
                res@ == seq![LineUid::Everything] + matching(
                    self@.rules.subrange(0, i as int),
                    *record,
                    labels.deep_view(),
                ),
            decreases self.filters.len() - i,
        {
            assert(self@.rules.subrange(0, i + 1).drop_last() =~= self@.rules.subrange(
                0,
                i as int,
            ));
            let filter = &self.filters[i];
            if filter.pred.eval(record, labels) {
                res.push(filter.spec.uid());
            }
            assert(res@ =~= seq![LineUid::Everything] + matching(
                self@.rules.subrange(0, i + 1),
                *record,
                labels.deep_view(),
            ));
            i += 1;
        }
        assert(self@.rules.subrange(0, i as int) =~= self@.rules);
        if res.len() == 1 {
            res.push(LineUid::CatchAll);
            assert(res@ =~= seq![LineUid::Everything, LineUid::CatchAll]);
        }
        res
    }

    /// The lines that `record` belongs to.
    ///
    /// Fails with `UnknownUid` exactly when `mem` never issued the identifier of the record's
    /// labels.
    pub fn classify(&self, record: &Record, mem: &Mem) -> (res: Result<Vec<LineUid>, Error>)
        ensures
            match res {
                Ok(lines) => record.labels@ < mem@.len() && lines@ == classification(
                    self@.rules,
                    *record,
                    mem@[record.labels@ as int],
                ),
                Err(error) => record.labels@ >= mem@.len() && error == Error::UnknownUid,
            },
    {
        match mem.resolve(record.labels) {
            Ok(labels) => Ok(self.classify_with(record, &labels)),
            Err(error) => Err(error),
        }
    }

    /// Adds a user filter.
    ///
    /// Fails with `InvalidClientCommand`, and changes nothing, unless `spec` carries the
    /// identifier of a user filter that is not older than any handed out so far.
    pub fn add_filter(&mut self, spec: FilterSpec, pred: Predicate) -> (res: Result<(), Error>)
        requires
            old(self).wf(),
        ensures
            final(self).wf(),
            match res {
                Ok(_) => old(self)@.with_filter(spec@, pred) == Some(final(self)@),
                Err(error) => error == Error::InvalidClientCommand && old(self)@.with_filter(
                    spec@,
                    pred,
                ) is None && final(self)@ == old(self)@,
            },
    {
        match spec.uid() {
            LineUid::Filter(uid) => {
                if self.next <= uid.uid && uid.uid < u64::MAX {
                    self.filters.push(Filter { spec, pred });
                    self.next = uid.uid + 1;
                    assert(self@.rules =~= old(self)@.rules.push(Rule { spec: spec@, pred }));
                    Ok(())
                } else {
                    Err(Error::InvalidClientCommand)
                }
            },
            _ => Err(Error::InvalidClientCommand),
        }
    }

    /// Creates a user filter with a fresh identifier, the default name and the given color and
    /// predicate, and returns its identifier.
    ///
    /// Fails with `InvalidClientCommand`, and changes nothing, when no identifier is left.
    pub fn new_filter(&mut self, color: Color, pred: Predicate) -> (res: Result<FilterUid, Error>)
        requires
            old(self).wf(),
        ensures
            final(self).wf(),
            match res {
                Ok(uid) => {
                    &&& old(self)@.next < u64::MAX
                    &&& uid.uid == old(self)@.next
                    &&& old(self)@.with_filter(
                        FilterSpecView {
                            uid: LineUid::Filter(uid),
                            name: default_name(uid),
                            color,
                            edited: false,
                        },
                        pred,
                    ) == Some(final(self)@)
                },
                Err(error) => error == Error::InvalidClientCommand && old(self)@.next == u64::MAX
                    && final(self)@ == old(self)@,
            },
    {
        match self.next_uid() {
            Some(uid) => {
                let spec = FilterSpec::new(uid, color);
                match self.add_filter(spec, pred) {
                    Ok(_) => Ok(uid),
                    Err(error) => Err(error),
                }
            },
            None => Err(Error::InvalidClientCommand),
        }
    }

    /// Removes a user filter.
    ///
    /// Fails with `InvalidClientCommand`, and changes nothing, when there is no such filter.
    pub fn remove_filter(&mut self, uid: FilterUid) -> (res: Result<(), Error>)
        requires
            old(self).wf(),
        ensures
            final(self).wf(),
            match res {
                Ok(_) => old(self)@.without_filter(uid) == Some(final(self)@),
                Err(error) => error == Error::InvalidClientCommand && old(self)@.without_filter(
                    uid,
                ) is None && final(self)@ == old(self)@,
            },
    {
        match self.find(uid) {
            Some(at) => {
                proof {
                    lemma_rule_position(self@, uid, at as int);
                }
                let _ = self.filters.remove(at);
                assert(self@.rules =~= old(self)@.rules.remove(at as int));
                Ok(())
            },
            None => Err(Error::InvalidClientCommand),
        }
    }

    /// Applies a client's change to one line.
    ///
    /// Fails with `InvalidClientCommand`, and changes nothing, when the line does not exist or
    /// is a built-in line asked to take a predicate.
    pub fn edit(&mut self, line: LineUid, mutation: Mutation) -> (res: Result<(), Error>)
        requires
            old(self).wf(),
        ensures
            final(self).wf(),
            match res {
                Ok(_) => old(self)@.edited(line, mutation) == Some(final(self)@),
                Err(error) => error == Error::InvalidClientCommand && old(self)@.edited(
                    line,
                    mutation,
                ) is None && final(self)@ == old(self)@,
            },
    {
        match line {
            LineUid::Everything => match mutation {
                Mutation::SetPredicate(_) => Err(Error::InvalidClientCommand),
                _ => {
                    touch(&mut self.everything, mutation);
                    Ok(())
                },
            },
            LineUid::CatchAll => match mutation {
                Mutation::SetPredicate(_) => Err(Error::InvalidClientCommand),
                _ => {
                    touch(&mut self.catch_all, mutation);
                    Ok(())
                },
            },
            LineUid::Filter(uid) => match self.find(uid) {
                Some(at) => {
                    proof {
                        lemma_rule_position(self@, uid, at as int);
                    }
                    let ghost before = self.filters@[at as int]@;
                    match mutation {
                        Mutation::SetPredicate(pred) => {
                            self.filters[at].pred = pred;
                        },
                        _ => {
                            touch(&mut self.filters[at].spec, mutation);
                        },
                    }
                    assert(self@.rules =~= old(self)@.rules.update(
                        at as int,
                        amended(before, mutation),
                    ));
                    Ok(())
                },
                None => Err(Error::InvalidClientCommand),
            },
        }
    }
}

/// Applies to `spec` a change of name, color or flag.
fn touch(spec: &mut FilterSpec, mutation: Mutation)
    requires
        !(mutation is SetPredicate),
    ensures
        final(spec)@ == touched(old(spec)@, mutation),
{
    match mutation {
        Mutation::Rename(name) => spec.set_name(name),
        Mutation::Recolor(color) => spec.set_color(color),
        Mutation::SetEdited(edited) => if edited {
            spec.set_edited()
        } else {
            spec.unset_edited()
        },
        Mutation::SetPredicate(_) => {},
    }
}

/// True if the two lists of rules sort allocations alike: they hold the same filters in the
/// same order, with the same predicates, whatever their names and colors.
pub open spec fn same_sorting(lft: Seq<Rule>, rgt: Seq<Rule>) -> bool {
    &&& lft.len() == rgt.len()
    &&& forall|i: int|
        0 <= i < lft.len() ==> (#[trigger] lft[i]).spec.uid == rgt[i].spec.uid && lft[i].pred
            == rgt[i].pred
}

} // verus!
