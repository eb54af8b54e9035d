use memthol::color::Color;
use memthol::error::Error;
use memthol::filter::pred::{Condition, Predicate, Relation};
use memthol::filter::spec::FilterSpec;
use memthol::filter::{Filter, Filters, Mutation};
use memthol::labels::{Mem, Uid};
use memthol::store::Record;
use memthol::uid::{FilterUid, LineUid};

fn strings(labels: &[&str]) -> Vec<String> {
    labels.iter().map(|label| label.to_string()).collect()
}

fn record(size: u64, birth: u64) -> Record {
    Record { id: 1, size, labels: Uid { uid: 0 }, birth, death: None }
}

fn size(relation: Relation, bound: u64) -> Predicate {
    Predicate::Test(Condition::Size(relation, bound))
}

fn label(text: &str) -> Predicate {
    Predicate::Test(Condition::Label(text.to_string()))
}

const GREY: Color = Color { r: 9, g: 9, b: 9 };

#[test]
fn built_in_specifications() {
    let catch_all = FilterSpec::new_catch_all();
    assert_eq!(catch_all.uid(), LineUid::CatchAll);
    assert_eq!(catch_all.name(), "catch all");
    assert_eq!(*catch_all.color(), Color { r: 0x01, g: 0x93, b: 0xff });
    assert!(!catch_all.edited());
    let everything = FilterSpec::new_everything();
    assert_eq!(everything.uid(), LineUid::Everything);
    assert_eq!(everything.name(), "everything");
    assert_eq!(*everything.color(), Color { r: 0xff, g: 0x66, b: 0x00 });
    assert!(!everything.edited());
}

#[test]
fn user_specification_and_setters() {
    let mut spec = FilterSpec::new(FilterUid::new(12), GREY);
    assert_eq!(spec.uid(), LineUid::Filter(FilterUid { uid: 12 }));
    assert_eq!(spec.uid().filter_uid(), Some(FilterUid { uid: 12 }));
    assert_eq!(spec.name(), "filter 12");
    assert_eq!(*spec.color(), GREY);
    assert!(!spec.edited());
    spec.set_edited();
    assert!(spec.edited());
    spec.unset_edited();
    assert!(!spec.edited());
    spec.set_name("big ones".to_string());
    assert_eq!(spec.name(), "big ones");
    spec.set_color(Color::new(1, 2, 3));
    assert_eq!(*spec.color(), Color { r: 1, g: 2, b: 3 });
    assert_eq!(spec.uid(), LineUid::Filter(FilterUid { uid: 12 }));
    assert_eq!(spec.duplicate(), spec);
    assert_eq!(FilterSpec::new(FilterUid::new(0), GREY).name(), "filter 0");
    assert_eq!(FilterUid::new(3).get(), 3);
}

#[test]
fn line_identities() {
    assert!(LineUid::CatchAll.is_builtin());
    assert!(LineUid::Everything.is_builtin());
    assert!(!LineUid::Filter(FilterUid { uid: 0 }).is_builtin());
    assert_eq!(LineUid::CatchAll.filter_uid(), None);
    assert_eq!(LineUid::Everything.filter_uid(), None);
}

#[test]
fn relations() {
    let cases = [
        (Relation::Below, [true, false, false]),
        (Relation::AtMost, [true, true, false]),
        (Relation::Equal, [false, true, false]),
        (Relation::AtLeast, [false, true, true]),
        (Relation::Above, [false, false, true]),
    ];
    for (relation, expected) in cases {
        let got = [relation.relates(4, 5), relation.relates(5, 5), relation.relates(6, 5)];
        assert_eq!(got, expected);
    }
}

#[test]
fn conditions_read_size_birth_and_labels() {
    let labels = strings(&["vec", "hot"]);
    let rec = record(100, 7);
    assert!(Condition::Size(Relation::Above, 50).eval(&rec, &labels));
    assert!(!Condition::Size(Relation::Above, 100).eval(&rec, &labels));
    assert!(Condition::Birth(Relation::AtMost, 7).eval(&rec, &labels));
    assert!(!Condition::Birth(Relation::Below, 7).eval(&rec, &labels));
    assert!(Condition::Label("hot".to_string()).eval(&rec, &labels));
    assert!(!Condition::Label("ho".to_string()).eval(&rec, &labels));
    assert!(!Condition::Label("hot".to_string()).eval(&rec, &strings(&[])));
    let dead = Record { death: Some(9), ..rec };
    assert!(Condition::Birth(Relation::Equal, 7).eval(&dead, &labels));
}

#[test]
fn predicates_combine() {
    let labels = strings(&["vec"]);
    let rec = record(100, 7);
    assert!(Predicate::All(vec![]).eval(&rec, &labels));
    assert!(!Predicate::Any(vec![]).eval(&rec, &labels));
    let both = Predicate::All(vec![size(Relation::Above, 50), label("vec")]);
    assert!(both.eval(&rec, &labels));
    let neither = Predicate::All(vec![size(Relation::Above, 50), label("map")]);
    assert!(!neither.eval(&rec, &labels));
    let either = Predicate::Any(vec![size(Relation::Below, 50), label("vec")]);
    assert!(either.eval(&rec, &labels));
    let none = Predicate::Any(vec![size(Relation::Below, 50), label("map")]);
    assert!(!none.eval(&rec, &labels));
    let nested = Predicate::All(vec![
        Predicate::Any(vec![label("map"), label("vec")]),
        Predicate::Any(vec![size(Relation::Equal, 1), Predicate::All(vec![])]),
    ]);
    assert!(nested.eval(&rec, &labels));
    let dead = Record { death: Some(8), ..rec };
    assert_eq!(nested.eval(&dead, &labels), nested.eval(&rec, &labels));
}

#[test]
fn classification_lists_lines_in_creation_order() {
    let mut filters = Filters::new();
    let big = filters.new_filter(GREY, size(Relation::Above, 50)).unwrap();
    let vecs = filters.new_filter(GREY, label("vec")).unwrap();
    let huge = filters.new_filter(GREY, size(Relation::Above, 1000)).unwrap();
    assert_eq!((big.uid, vecs.uid, huge.uid), (0, 1, 2));
    assert_eq!(filters.len(), 3);
    let labels = strings(&["vec"]);
    assert_eq!(
        filters.classify_with(&record(100, 0), &labels),
        vec![LineUid::Everything, LineUid::Filter(big), LineUid::Filter(vecs)]
    );
    assert_eq!(
        filters.classify_with(&record(5000, 0), &strings(&[])),
        vec![LineUid::Everything, LineUid::Filter(big), LineUid::Filter(huge)]
    );
    assert_eq!(
        filters.classify_with(&record(1, 0), &strings(&["map"])),
        vec![LineUid::Everything, LineUid::CatchAll]
    );
    let dead = Record { death: Some(3), ..record(100, 0) };
    assert_eq!(
        filters.classify_with(&dead, &labels),
        filters.classify_with(&record(100, 0), &labels)
    );
}

#[test]
fn classification_without_filters() {
    let filters = Filters::new();
    assert_eq!(
        filters.classify_with(&record(1, 0), &strings(&[])),
        vec![LineUid::Everything, LineUid::CatchAll]
    );
}

#[test]
fn classification_resolves_labels() {
    let mut mem = Mem::new();
    let other = mem.intern(strings(&["map"]));
    let uid = mem.intern(strings(&["vec"]));
    let mut filters = Filters::new();
    let vecs = filters.new_filter(GREY, label("vec")).unwrap();
    let rec = Record { id: 1, size: 1, labels: uid, birth: 0, death: None };
    assert_eq!(
        filters.classify(&rec, &mem),
        Ok(vec![LineUid::Everything, LineUid::Filter(vecs)])
    );
    let rec = Record { labels: other, ..rec };
    assert_eq!(filters.classify(&rec, &mem), Ok(vec![LineUid::Everything, LineUid::CatchAll]));
    let rec = Record { labels: Uid { uid: 2 }, ..rec };
    assert_eq!(filters.classify(&rec, &mem), Err(Error::UnknownUid));
}

#[test]
fn adding_filters() {
    let mut filters = Filters::new();
    assert_eq!(filters.next_uid(), Some(FilterUid { uid: 0 }));
    let spec = FilterSpec::new(FilterUid::new(5), GREY);
    assert_eq!(filters.add_filter(spec, Predicate::All(vec![])), Ok(()));
    assert_eq!(filters.next_uid(), Some(FilterUid { uid: 6 }));
    let stale = FilterSpec::new(FilterUid::new(5), GREY);
    assert_eq!(
        filters.add_filter(stale, Predicate::All(vec![])),
        Err(Error::InvalidClientCommand)
    );
    let older = FilterSpec::new(FilterUid::new(2), GREY);
    assert_eq!(
        filters.add_filter(older, Predicate::All(vec![])),
        Err(Error::InvalidClientCommand)
    );
    assert_eq!(
        filters.add_filter(FilterSpec::new_catch_all(), Predicate::All(vec![])),
        Err(Error::InvalidClientCommand)
    );
    let last = FilterSpec::new(FilterUid::new(u64::MAX), GREY);
    assert_eq!(
        filters.add_filter(last, Predicate::All(vec![])),
        Err(Error::InvalidClientCommand)
    );
    assert_eq!(filters.len(), 1);
    let spec = FilterSpec::new(FilterUid::new(u64::MAX - 1), GREY);
    assert_eq!(filters.add_filter(spec, Predicate::All(vec![])), Ok(()));
    assert_eq!(filters.next_uid(), None);
    assert_eq!(
        filters.new_filter(GREY, Predicate::All(vec![])),
        Err(Error::InvalidClientCommand)
    );
    assert_eq!(filters.len(), 2);
}

#[test]
fn removing_filters() {
    let mut filters = Filters::new();
    let a = filters.new_filter(GREY, Predicate::All(vec![])).unwrap();
    let b = filters.new_filter(GREY, Predicate::All(vec![])).unwrap();
    let c = filters.new_filter(GREY, Predicate::All(vec![])).unwrap();
    assert_eq!(filters.remove_filter(FilterUid { uid: 9 }), Err(Error::InvalidClientCommand));
    assert_eq!(filters.remove_filter(b), Ok(()));
    assert_eq!(filters.remove_filter(b), Err(Error::InvalidClientCommand));
    let names: Vec<String> = filters.list().iter().map(|spec| spec.name().to_string()).collect();
    assert_eq!(names, strings(&["everything", "filter 0", "filter 2", "catch all"]));
    assert!(filters.spec_of(LineUid::Filter(a)).is_some());
    assert!(filters.spec_of(LineUid::Filter(b)).is_none());
    assert_eq!(filters.spec_of(LineUid::Filter(c)).unwrap().name(), "filter 2");
    let d = filters.new_filter(GREY, Predicate::All(vec![])).unwrap();
    assert_eq!(d, FilterUid { uid: 3 });
}

#[test]
fn editing_lines() {
    let mut filters = Filters::new();
    let uid = filters.new_filter(GREY, size(Relation::Above, 50)).unwrap();
    let line = LineUid::Filter(uid);
    assert_eq!(filters.edit(line, Mutation::Rename("big".to_string())), Ok(()));
    assert_eq!(filters.edit(line, Mutation::Recolor(Color::new(1, 1, 1))), Ok(()));
    assert_eq!(filters.edit(line, Mutation::SetEdited(true)), Ok(()));
    let spec = filters.spec_of(line).unwrap();
    assert_eq!(spec.name(), "big");
    assert_eq!(*spec.color(), Color { r: 1, g: 1, b: 1 });
    assert!(spec.edited());
    assert_eq!(spec.uid(), line);
    assert_eq!(filters.edit(line, Mutation::SetEdited(false)), Ok(()));
    assert!(!filters.spec_of(line).unwrap().edited());

    let labels = strings(&[]);
    assert_eq!(
        filters.classify_with(&record(60, 0), &labels),
        vec![LineUid::Everything, line]
    );
    assert_eq!(filters.edit(line, Mutation::SetPredicate(size(Relation::Above, 70))), Ok(()));
    assert_eq!(
        filters.classify_with(&record(60, 0), &labels),
        vec![LineUid::Everything, LineUid::CatchAll]
    );
    assert_eq!(filters.spec_of(line).unwrap().name(), "big");

    assert_eq!(
        filters.edit(LineUid::CatchAll, Mutation::Rename("the rest".to_string())),
        Ok(())
    );
    assert_eq!(filters.spec_of(LineUid::CatchAll).unwrap().name(), "the rest");
    assert_eq!(filters.edit(LineUid::Everything, Mutation::Recolor(GREY)), Ok(()));
    assert_eq!(*filters.spec_of(LineUid::Everything).unwrap().color(), GREY);
    assert_eq!(
        filters.edit(LineUid::CatchAll, Mutation::SetPredicate(Predicate::All(vec![]))),
        Err(Error::InvalidClientCommand)
    );
    assert_eq!(
        filters.edit(LineUid::Everything, Mutation::SetPredicate(Predicate::All(vec![]))),
        Err(Error::InvalidClientCommand)
    );
    assert_eq!(
        filters.edit(LineUid::Filter(FilterUid { uid: 4 }), Mutation::SetEdited(true)),
        Err(Error::InvalidClientCommand)
    );
    assert!(Mutation::SetPredicate(Predicate::All(vec![])).is_structural());
    assert!(!Mutation::SetEdited(true).is_structural());
}

#[test]
fn a_filter_pairs_a_specification_with_a_predicate() {
    let filter = Filter {
        spec: FilterSpec::new(FilterUid::new(1), GREY),
        pred: size(Relation::Equal, 3),
    };
    assert_eq!(filter.spec.name(), "filter 1");
    assert!(filter.pred.eval(&record(3, 0), &strings(&[])));
}
