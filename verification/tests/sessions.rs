use memthol::chart::{Cursor, Delta, Point};
use memthol::color::Color;
use memthol::error::Error;
use memthol::filter::pred::{Condition, Predicate, Relation};
use memthol::filter::spec::FilterSpec;
use memthol::filter::Mutation;
use memthol::msg::{Command, Message, SessionCursor};
use memthol::session::{Input, Output, Phase, Session};
use memthol::state::{Notice, State};
use memthol::store::{Applied, Event};
use memthol::uid::{FilterUid, LineUid};

fn birth(id: u64, size: u64, timestamp: u64) -> Event {
    Event::Birth { id, size, labels: vec!["x".to_string()], timestamp }
}

fn rename(uid: LineUid, name: &str) -> Command {
    Command::Edit { uid, mutation: Mutation::Rename(name.to_string()) }
}

fn at(phase: Phase) -> Session {
    Session { phase, cursor: SessionCursor::start() }
}

#[test]
fn a_session_goes_through_its_phases() {
    let mut session = Session::new();
    assert_eq!(session.phase, Phase::Connecting);
    assert_eq!(session.cursor, SessionCursor { chart: Cursor { epoch: 0, seq: 0 }, notices: 0 });
    assert!(!session.is_closed());
    assert_eq!(session.step(Input::Accepted), Output::SendFullSync);
    assert_eq!(session.phase, Phase::Syncing);
    assert_eq!(session.step(Input::Synced), Output::SendUpdates);
    assert_eq!(session.phase, Phase::Streaming);
    assert_eq!(session.step(Input::Wake), Output::SendUpdates);
    assert_eq!(session.phase, Phase::Streaming);
    let command = rename(LineUid::CatchAll, "rest");
    assert_eq!(session.step(Input::Request(rename(LineUid::CatchAll, "rest"))), Output::Submit(command));
    assert_eq!(session.phase, Phase::Streaming);
    assert_eq!(session.step(Input::Left), Output::Discard);
    assert_eq!(session.phase, Phase::Closed);
    assert!(session.is_closed());
}

#[test]
fn inputs_out_of_turn_do_nothing() {
    for phase in [Phase::Connecting, Phase::Syncing] {
        let mut session = at(phase);
        assert_eq!(session.step(Input::Wake), Output::Nothing);
        assert_eq!(session.phase, phase);
        assert_eq!(
            session.step(Input::Request(rename(LineUid::CatchAll, "rest"))),
            Output::Reject(Error::InvalidClientCommand)
        );
        assert_eq!(session.phase, phase);
    }
    for phase in [Phase::Connecting, Phase::Syncing, Phase::Streaming] {
        let mut session = at(phase);
        assert_eq!(session.step(Input::Garbled), Output::Reject(Error::InvalidClientCommand));
        assert_eq!(session.phase, phase);
    }
    let mut session = at(Phase::Connecting);
    assert_eq!(session.step(Input::Synced), Output::Nothing);
    assert_eq!(session.phase, Phase::Connecting);
    for phase in [Phase::Syncing, Phase::Streaming] {
        let mut session = at(phase);
        assert_eq!(session.step(Input::Accepted), Output::Nothing);
        assert_eq!(session.phase, phase);
    }
    let mut session = at(Phase::Streaming);
    assert_eq!(session.step(Input::Synced), Output::Nothing);
    assert_eq!(session.phase, Phase::Streaming);
}

#[test]
fn failure_and_departure_close_any_session() {
    for phase in [Phase::Connecting, Phase::Syncing, Phase::Streaming] {
        let mut session = at(phase);
        assert_eq!(session.step(Input::Failed), Output::Discard);
        assert_eq!(session.phase, Phase::Closed);
        let mut session = at(phase);
        assert_eq!(session.step(Input::Left), Output::Discard);
        assert_eq!(session.phase, Phase::Closed);
    }
}

#[test]
fn a_closed_session_stays_closed() {
    let mut state = State::new();
    state.ingest(birth(1, 1, 0)).unwrap();
    let inputs = [
        Input::Accepted,
        Input::Synced,
        Input::Wake,
        Input::Request(rename(LineUid::CatchAll, "rest")),
        Input::Garbled,
        Input::Failed,
        Input::Left,
    ];
    for input in inputs {
        let mut session = at(Phase::Closed);
        assert_eq!(session.serve(&mut state, input), vec![]);
        assert_eq!(session, at(Phase::Closed));
    }
    assert_eq!(state.filters().spec_of(LineUid::CatchAll).unwrap().name(), "catch all");
}

#[test]
fn full_sync_brings_everything() {
    let mut state = State::new();
    state.ingest(birth(1, 100, 2)).unwrap();
    let add = Command::Add {
        color: Color::new(7, 8, 9),
        pred: Predicate::Test(Condition::Size(Relation::AtLeast, 100)),
    };
    let line = state.command(add).unwrap();
    let (message, cursor) = state.full_sync();
    let point = Point { seq: 0, time: 2, live_bytes: 100, live_count: 1 };
    assert_eq!(
        message,
        Message::FullSync {
            filters: vec![
                FilterSpec::new_everything(),
                FilterSpec::new(FilterUid::new(0), Color::new(7, 8, 9)),
                FilterSpec::new_catch_all(),
            ],
            series: vec![
                Delta { filter_id: LineUid::Everything, start: 0, new_points: vec![point] },
                Delta { filter_id: LineUid::CatchAll, start: 0, new_points: vec![] },
                Delta { filter_id: line, start: 0, new_points: vec![point] },
            ],
        }
    );
    assert_eq!(cursor, SessionCursor { chart: Cursor { epoch: 4, seq: 1 }, notices: 1 });
    let mut cursor = cursor;
    assert_eq!(state.drain(&mut cursor), vec![]);

    let mut session = Session::new();
    assert_eq!(session.serve(&mut state, Input::Accepted), vec![message]);
    assert_eq!(session.cursor, cursor);
}

#[test]
fn commands_change_the_state_or_are_rejected() {
    let mut state = State::new();
    let mut session = at(Phase::Streaming);
    let ghost = LineUid::Filter(FilterUid { uid: 3 });
    assert_eq!(
        session.serve(&mut state, Input::Request(rename(ghost, "ghost"))),
        vec![Message::Rejected { error: Error::InvalidClientCommand }]
    );
    assert_eq!(
        session.serve(&mut state, Input::Request(Command::Remove { filter: FilterUid { uid: 3 } })),
        vec![Message::Rejected { error: Error::InvalidClientCommand }]
    );
    let no_predicate = Command::Edit {
        uid: LineUid::Everything,
        mutation: Mutation::SetPredicate(Predicate::All(vec![])),
    };
    assert_eq!(
        session.serve(&mut state, Input::Request(no_predicate)),
        vec![Message::Rejected { error: Error::InvalidClientCommand }]
    );
    assert_eq!(
        session.serve(&mut state, Input::Garbled),
        vec![Message::Rejected { error: Error::InvalidClientCommand }]
    );
    let mut unsent = at(Phase::Syncing);
    assert_eq!(
        unsent.serve(&mut state, Input::Request(rename(LineUid::CatchAll, "rest"))),
        vec![Message::Rejected { error: Error::InvalidClientCommand }]
    );
    assert_eq!(state.filters().spec_of(LineUid::CatchAll).unwrap().name(), "catch all");
    assert_eq!(state.charts().cursor(), Cursor { epoch: 2, seq: 0 });
    let mut cursor = SessionCursor { chart: state.charts().cursor(), notices: 0 };
    assert_eq!(state.drain(&mut cursor), vec![]);

    assert_eq!(session.serve(&mut state, Input::Request(rename(LineUid::CatchAll, "rest"))), vec![]);
    assert_eq!(state.filters().spec_of(LineUid::CatchAll).unwrap().name(), "rest");
    assert_eq!(state.charts().cursor(), Cursor { epoch: 2, seq: 0 });
    let told = state.drain(&mut cursor);
    assert_eq!(told.len(), 1);
    match &told[0] {
        Message::FilterChanged { spec } => {
            assert_eq!(spec.uid(), LineUid::CatchAll);
            assert_eq!(spec.name(), "rest");
        }
        other => panic!("unexpected message {:?}", other),
    }
}

#[test]
fn changes_of_lines_are_told_in_order() {
    let mut state = State::new();
    let mut cursor = SessionCursor::start();
    state.drain(&mut cursor);
    let add = Command::Add { color: Color::new(1, 1, 1), pred: Predicate::Any(vec![]) };
    let line = state.command(add).unwrap();
    state.command(rename(line, "none")).unwrap();
    state.command(Command::Remove { filter: FilterUid { uid: 0 } }).unwrap();
    let mut late = SessionCursor { chart: state.charts().cursor(), notices: 2 };
    let told = state.drain(&mut cursor);
    assert_eq!(told.len(), 5);
    let mut renamed = FilterSpec::new(FilterUid::new(0), Color::new(1, 1, 1));
    assert_eq!(told[0], Message::FilterChanged { spec: renamed.duplicate() });
    renamed.set_name("none".to_string());
    assert_eq!(told[1], Message::FilterChanged { spec: renamed });
    assert_eq!(told[2], Message::FilterRemoved { uid: FilterUid { uid: 0 } });
    assert!(matches!(told[3], Message::Delta(_)));
    assert!(matches!(told[4], Message::Delta(_)));
    assert_eq!(
        state.drain(&mut late),
        vec![Message::FilterRemoved { uid: FilterUid { uid: 0 } }]
    );
    assert_eq!(late, cursor);
    let mut ahead = SessionCursor { chart: state.charts().cursor(), notices: 9 };
    assert_eq!(state.drain(&mut ahead), vec![]);
    assert_eq!(ahead, cursor);
}

#[test]
fn a_notice_becomes_a_message() {
    let spec = FilterSpec::new_catch_all();
    let notice = Notice::FilterChanged { spec: spec.duplicate() };
    assert_eq!(notice.to_message(), Message::FilterChanged { spec });
    let notice = Notice::FilterRemoved { uid: FilterUid { uid: 4 } };
    assert_eq!(notice.to_message(), Message::FilterRemoved { uid: FilterUid { uid: 4 } });
}

#[test]
fn a_batch_skips_what_does_not_fit() {
    let mut state = State::new();
    let skipped = state.ingest_all(vec![
        birth(1, 10, 0),
        Event::Death { id: 2, timestamp: 1 },
        birth(2, 20, 3),
        birth(1, 10, 4),
        birth(3, 30, 2),
        Event::Death { id: 1, timestamp: 5 },
        Event::Death { id: 1, timestamp: 6 },
    ]);
    assert_eq!(
        skipped,
        vec![
            (1, Error::UnknownAllocation),
            (3, Error::DuplicateAllocation),
            (4, Error::ParseError),
            (6, Error::ParseError),
        ]
    );
    assert_eq!(state.store().len(), 2);
    assert_eq!(state.store().events(), 3);
    assert_eq!(
        state.charts().series(LineUid::Everything),
        Some(vec![
            Point { seq: 0, time: 0, live_bytes: 10, live_count: 1 },
            Point { seq: 1, time: 3, live_bytes: 30, live_count: 2 },
            Point { seq: 2, time: 5, live_bytes: 20, live_count: 1 },
        ])
    );
    assert_eq!(state.ingest_all(vec![]), vec![]);
    assert_eq!(state.ingest(birth(9, 1, 5)), Ok(Applied::Born(9)));
}
