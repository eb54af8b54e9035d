use memthol::chart::{Cursor, Delta, Point};
use memthol::color::Color;
use memthol::error::Error;
use memthol::filter::pred::{Condition, Predicate, Relation};
use memthol::filter::{Filters, Mutation};
use memthol::labels::{Mem, Uid};
use memthol::msg::{Command, Message, SessionCursor};
use memthol::session::{Input, Phase, Session};
use memthol::state::State;
use memthol::store::{Applied, Event, Record};
use memthol::uid::{FilterUid, LineUid};

fn strings(labels: &[&str]) -> Vec<String> {
    labels.iter().map(|label| label.to_string()).collect()
}

fn birth(id: u64, size: u64, labels: &[&str], timestamp: u64) -> Event {
    Event::Birth { id, size, labels: strings(labels), timestamp }
}

fn size_above(bound: u64) -> Predicate {
    Predicate::Test(Condition::Size(Relation::Above, bound))
}

#[test]
fn intern_same_list_twice() {
    let mut mem = Mem::new();
    let first = mem.intern(strings(&["a", "b"]));
    let second = mem.intern(strings(&["a", "b"]));
    let third = mem.intern(strings(&["a"]));
    assert_eq!(first, second);
    assert_ne!(first, third);
    assert_eq!(first, Uid { uid: 0 });
    assert_eq!(third, Uid { uid: 1 });
    assert_eq!(mem.len(), 2);
}

#[test]
fn birth_then_death() {
    let mut state = State::new();
    let born = state.ingest(birth(1, 100, &["x"], 0));
    assert_eq!(born, Ok(Applied::Born(1)));
    let died = state.ingest(Event::Death { id: 1, timestamp: 10 });
    assert_eq!(died, Ok(Applied::Died(1)));
    let record = state.store().get(1).unwrap();
    assert_eq!(record.id, 1);
    assert_eq!(record.size, 100);
    assert_eq!(record.birth, 0);
    assert_eq!(record.death, Some(10));
    assert_eq!(*state.mem().resolve(record.labels).unwrap(), strings(&["x"]));
}

#[test]
fn death_without_birth() {
    let mut state = State::new();
    let res = state.ingest(Event::Death { id: 7, timestamp: 3 });
    assert_eq!(res, Err(Error::UnknownAllocation));
    assert_eq!(state.store().len(), 0);
    assert_eq!(state.store().events(), 0);
    assert_eq!(state.store().get(7), None);
}

#[test]
fn size_filter_and_catch_all() {
    let mut filters = Filters::new();
    let uid = filters.new_filter(Color::new(1, 2, 3), size_above(50)).unwrap();
    assert_eq!(uid, FilterUid { uid: 0 });
    let labels = strings(&["x"]);
    let big = Record { id: 1, size: 100, labels: Uid { uid: 0 }, birth: 0, death: None };
    let small = Record { id: 2, size: 10, labels: Uid { uid: 0 }, birth: 0, death: None };
    assert_eq!(
        filters.classify_with(&big, &labels),
        vec![LineUid::Everything, LineUid::Filter(uid)]
    );
    assert_eq!(
        filters.classify_with(&small, &labels),
        vec![LineUid::Everything, LineUid::CatchAll]
    );
}

#[test]
fn edit_reaches_the_other_session() {
    let mut state = State::new();
    let mut alice = Session::new();
    let mut bob = Session::new();
    for session in [&mut alice, &mut bob] {
        let sync = session.serve(&mut state, Input::Accepted);
        assert_eq!(sync.len(), 1);
        assert!(matches!(sync[0], Message::FullSync { .. }));
        assert_eq!(session.phase, Phase::Syncing);
        assert_eq!(session.serve(&mut state, Input::Synced), vec![]);
        assert_eq!(session.phase, Phase::Streaming);
    }
    let red = Color::new(255, 0, 0);
    let edit = Command::Edit { uid: LineUid::Everything, mutation: Mutation::Recolor(red) };
    assert_eq!(alice.serve(&mut state, Input::Request(edit)), vec![]);

    let told = bob.serve(&mut state, Input::Wake);
    assert_eq!(told.len(), 1);
    match &told[0] {
        Message::FilterChanged { spec } => {
            assert_eq!(spec.uid(), LineUid::Everything);
            assert_eq!(*spec.color(), red);
            assert_eq!(spec.name(), "everything");
        }
        other => panic!("unexpected message {:?}", other),
    }
    assert_eq!(state.store().events(), 0);
    assert_eq!(bob.serve(&mut state, Input::Wake), vec![]);

    assert_eq!(state.ingest(birth(1, 100, &["x"], 0)), Ok(Applied::Born(1)));
    let point = Point { seq: 0, time: 0, live_bytes: 100, live_count: 1 };
    let news = bob.serve(&mut state, Input::Wake);
    assert_eq!(
        news,
        vec![
            Message::Delta(Delta {
                filter_id: LineUid::Everything,
                start: 0,
                new_points: vec![point]
            }),
            Message::Delta(Delta { filter_id: LineUid::CatchAll, start: 0, new_points: vec![point] }),
        ]
    );
    let also = alice.serve(&mut state, Input::Wake);
    assert_eq!(also.len(), 3);
    assert!(matches!(also[0], Message::FilterChanged { .. }));
    assert_eq!(&also[1..], &news[..]);
}

#[test]
fn duplicate_birth_is_rejected() {
    let mut state = State::new();
    assert_eq!(state.ingest(birth(1, 100, &["x"], 0)), Ok(Applied::Born(1)));
    let before = state.store().snapshot();
    let again = state.ingest(birth(1, 100, &["x"], 0));
    assert_eq!(again, Err(Error::DuplicateAllocation));
    let other = state.ingest(birth(1, 5, &["y"], 3));
    assert_eq!(other, Err(Error::DuplicateAllocation));
    assert_eq!(state.store().snapshot(), before);
    assert_eq!(state.store().len(), 1);
    assert_eq!(state.store().events(), 1);
    assert_eq!(state.mem().len(), 1);
    assert_eq!(state.charts().series(LineUid::Everything).unwrap().len(), 1);
}

#[test]
fn second_drain_is_empty() {
    let mut state = State::new();
    state.ingest(birth(1, 100, &["x"], 0)).unwrap();
    state.ingest(birth(2, 10, &[], 4)).unwrap();
    let mut cursor = Cursor::start();
    let first = state.charts().drain_since(&mut cursor);
    assert_eq!(first.len(), 2);
    assert_eq!(cursor, state.charts().cursor());
    let second = state.charts().drain_since(&mut cursor);
    assert_eq!(second, vec![]);
    assert_eq!(cursor, state.charts().cursor());

    let mut session = SessionCursor::start();
    assert_eq!(state.drain(&mut session).len(), 2);
    assert_eq!(state.drain(&mut session), vec![]);
}
