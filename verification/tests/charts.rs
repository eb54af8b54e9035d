use memthol::chart::{lists_line, step, Charts, Cursor, Delta, Point, Series};
use memthol::color::Color;
use memthol::error::Error;
use memthol::filter::pred::{Condition, Predicate, Relation};
use memthol::filter::{Filters, Mutation};
use memthol::labels::{Mem, Uid};
use memthol::msg::Command;
use memthol::state::State;
use memthol::store::{Event, Record};
use memthol::uid::{FilterUid, LineUid};

fn strings(labels: &[&str]) -> Vec<String> {
    labels.iter().map(|label| label.to_string()).collect()
}

fn birth(id: u64, size: u64, labels: &[&str], timestamp: u64) -> Event {
    Event::Birth { id, size, labels: strings(labels), timestamp }
}

fn live(size: u64, birth: u64) -> Record {
    Record { id: 1, size, labels: Uid { uid: 0 }, birth, death: None }
}

fn dead(size: u64, birth: u64, death: u64) -> Record {
    Record { id: 1, size, labels: Uid { uid: 0 }, birth, death: Some(death) }
}

fn point(seq: usize, time: u64, live_bytes: u64, live_count: u64) -> Point {
    Point { seq, time, live_bytes, live_count }
}

fn size_above(bound: u64) -> Predicate {
    Predicate::Test(Condition::Size(Relation::Above, bound))
}

#[test]
fn points_add_at_birth_and_subtract_at_death() {
    assert_eq!(step(None, &live(100, 3), 0), point(0, 3, 100, 1));
    let prev = point(4, 10, 250, 3);
    assert_eq!(step(Some(prev), &live(50, 12), 5), point(5, 12, 300, 4));
    assert_eq!(step(Some(prev), &dead(50, 2, 12), 5), point(5, 12, 200, 2));
    assert_eq!(step(Some(prev), &dead(250, 2, 10), 9), point(9, 10, 0, 2));
}

#[test]
fn totals_stop_at_the_bounds() {
    let full = point(0, 0, u64::MAX - 5, u64::MAX);
    assert_eq!(step(Some(full), &live(5, 1), 1), point(1, 1, u64::MAX, u64::MAX));
    assert_eq!(step(Some(full), &live(6, 1), 1), point(1, 1, u64::MAX, u64::MAX));
    let low = point(0, 0, 10, 0);
    assert_eq!(step(Some(low), &dead(11, 0, 1), 1), point(1, 1, 0, 0));
    assert_eq!(step(None, &dead(11, 0, 1), 0), point(0, 1, 0, 0));
}

#[test]
fn time_never_goes_back() {
    let prev = point(0, 10, 1, 1);
    assert_eq!(step(Some(prev), &live(1, 4), 1), point(1, 10, 2, 2));
    assert_eq!(step(Some(prev), &dead(1, 4, 9), 1), point(1, 10, 0, 0));
    assert_eq!(step(Some(prev), &dead(1, 4, 11), 1), point(1, 11, 0, 0));
}

#[test]
fn a_series_grows_point_by_point() {
    let mut series = Series::new(LineUid::CatchAll);
    assert_eq!(series.line(), LineUid::CatchAll);
    assert_eq!(series.points(), &vec![]);
    series.extend(&live(8, 1), 0);
    series.extend(&live(4, 2), 3);
    series.extend(&dead(8, 1, 5), 4);
    assert_eq!(series.points(), &vec![point(0, 1, 8, 1), point(3, 2, 12, 2), point(4, 5, 4, 1)]);
}

#[test]
fn listing_a_line() {
    let lines = vec![LineUid::Everything, LineUid::Filter(FilterUid { uid: 2 })];
    assert!(lists_line(&lines, LineUid::Everything));
    assert!(lists_line(&lines, LineUid::Filter(FilterUid { uid: 2 })));
    assert!(!lists_line(&lines, LineUid::Filter(FilterUid { uid: 1 })));
    assert!(!lists_line(&lines, LineUid::CatchAll));
    assert!(!lists_line(&vec![], LineUid::Everything));
}

#[test]
fn charts_rebuild_and_ingest_agree() {
    let mem = {
        let mut mem = Mem::new();
        mem.intern(strings(&[]));
        mem
    };
    let mut filters = Filters::new();
    let big = LineUid::Filter(filters.new_filter(Color::new(0, 0, 0), size_above(50)).unwrap());
    let history = vec![live(100, 0), live(10, 5), dead(100, 0, 10), live(70, 11)];

    let mut replayed = Charts::new();
    assert_eq!(replayed.len(), 0);
    for line in [LineUid::Everything, big, LineUid::CatchAll] {
        assert_eq!(replayed.rebuild(line, &vec![], &filters, &mem), Ok(()));
    }
    assert_eq!(replayed.len(), 3);
    for record in &history {
        let lines = filters.classify(record, &mem).unwrap();
        replayed.ingest(record, &lines);
    }

    let mut rebuilt = Charts::new();
    for line in [LineUid::Everything, big, LineUid::CatchAll] {
        assert_eq!(rebuilt.rebuild(line, &history, &filters, &mem), Ok(()));
    }
    for line in [LineUid::Everything, big, LineUid::CatchAll] {
        assert_eq!(rebuilt.series(line), replayed.series(line));
    }
    assert_eq!(
        rebuilt.series(LineUid::Everything),
        Some(vec![point(0, 0, 100, 1), point(1, 5, 110, 2), point(2, 10, 10, 1), point(3, 11, 80, 2)])
    );
    assert_eq!(
        rebuilt.series(big),
        Some(vec![point(0, 0, 100, 1), point(2, 10, 0, 0), point(3, 11, 70, 1)])
    );
    assert_eq!(rebuilt.series(LineUid::CatchAll), Some(vec![point(1, 5, 10, 1)]));
    assert_eq!(rebuilt.series(LineUid::Filter(FilterUid { uid: 9 })), None);
    assert_eq!(rebuilt.cursor(), Cursor { epoch: 3, seq: 4 });
    assert_eq!(replayed.cursor(), Cursor { epoch: 3, seq: 4 });
}

#[test]
fn rebuild_needs_known_labels() {
    let mem = Mem::new();
    let filters = Filters::new();
    let mut charts = Charts::new();
    assert_eq!(charts.rebuild(LineUid::Everything, &vec![], &filters, &mem), Ok(()));
    let before = charts.cursor();
    assert_eq!(
        charts.rebuild(LineUid::Everything, &vec![live(1, 0)], &filters, &mem),
        Err(Error::UnknownUid)
    );
    assert_eq!(charts.cursor(), before);
    assert_eq!(charts.series(LineUid::Everything), Some(vec![]));
}

#[test]
fn draining_hands_out_each_point_once() {
    let mut state = State::new();
    let mut cursor = state.charts().cursor();
    assert_eq!(cursor, Cursor { epoch: 2, seq: 0 });
    state.ingest(birth(1, 100, &[], 0)).unwrap();
    let first = state.charts().drain_since(&mut cursor);
    let one = point(0, 0, 100, 1);
    assert_eq!(
        first,
        vec![
            Delta { filter_id: LineUid::Everything, start: 0, new_points: vec![one] },
            Delta { filter_id: LineUid::CatchAll, start: 0, new_points: vec![one] },
        ]
    );
    assert_eq!(cursor, Cursor { epoch: 2, seq: 1 });
    state.ingest(birth(2, 10, &[], 5)).unwrap();
    state.ingest(Event::Death { id: 1, timestamp: 10 }).unwrap();
    let mut late = Cursor { epoch: 2, seq: 2 };
    let second = state.charts().drain_since(&mut cursor);
    let two = point(1, 5, 110, 2);
    let three = point(2, 10, 10, 1);
    assert_eq!(
        second,
        vec![
            Delta { filter_id: LineUid::Everything, start: 1, new_points: vec![two, three] },
            Delta { filter_id: LineUid::CatchAll, start: 1, new_points: vec![two, three] },
        ]
    );
    assert_eq!(
        state.charts().drain_since(&mut late),
        vec![
            Delta { filter_id: LineUid::Everything, start: 2, new_points: vec![three] },
            Delta { filter_id: LineUid::CatchAll, start: 2, new_points: vec![three] },
        ]
    );
    assert_eq!(late, cursor);
    assert_eq!(state.charts().drain_since(&mut cursor), vec![]);
    assert_eq!(second[0].duplicate(), second[0]);
}

#[test]
fn a_new_filter_redraws_its_series_and_catch_all() {
    let mut state = State::new();
    state.ingest(birth(1, 100, &[], 0)).unwrap();
    state.ingest(birth(2, 10, &[], 5)).unwrap();
    state.ingest(Event::Death { id: 1, timestamp: 10 }).unwrap();
    let mut cursor = Cursor::start();
    state.charts().drain_since(&mut cursor);
    assert_eq!(cursor, Cursor { epoch: 2, seq: 3 });

    let add = Command::Add { color: Color::new(0, 0, 0), pred: size_above(50) };
    let line = state.command(add).unwrap();
    assert_eq!(line, LineUid::Filter(FilterUid { uid: 0 }));
    assert_eq!(state.charts().cursor(), Cursor { epoch: 4, seq: 3 });
    let everything = vec![point(0, 0, 100, 1), point(1, 5, 110, 2), point(2, 10, 10, 1)];
    let big = vec![point(0, 0, 100, 1), point(2, 10, 0, 0)];
    let rest = vec![point(1, 5, 10, 1)];
    assert_eq!(state.charts().series(LineUid::Everything), Some(everything.clone()));
    assert_eq!(state.charts().series(line), Some(big.clone()));
    assert_eq!(state.charts().series(LineUid::CatchAll), Some(rest.clone()));

    let whole = vec![
        Delta { filter_id: LineUid::Everything, start: 0, new_points: everything.clone() },
        Delta { filter_id: LineUid::CatchAll, start: 0, new_points: rest },
        Delta { filter_id: line, start: 0, new_points: big },
    ];
    assert_eq!(state.charts().content(), whole);
    assert_eq!(state.charts().drain_since(&mut cursor), whole);
    assert_eq!(state.charts().drain_since(&mut cursor), vec![]);

    state.ingest(birth(3, 60, &[], 12)).unwrap();
    assert_eq!(
        state.charts().drain_since(&mut cursor),
        vec![
            Delta {
                filter_id: LineUid::Everything,
                start: 3,
                new_points: vec![point(3, 12, 70, 2)]
            },
            Delta { filter_id: line, start: 2, new_points: vec![point(3, 12, 60, 1)] },
        ]
    );

    let edit = Command::Edit { uid: line, mutation: Mutation::SetPredicate(size_above(5)) };
    assert_eq!(state.command(edit), Ok(line));
    assert_eq!(
        state.charts().series(line),
        Some(vec![point(0, 0, 100, 1), point(1, 5, 110, 2), point(2, 10, 10, 1), point(3, 12, 70, 2)])
    );
    assert_eq!(state.charts().series(LineUid::CatchAll), Some(vec![]));
    assert_eq!(state.charts().cursor(), Cursor { epoch: 6, seq: 4 });

    let remove = Command::Remove { filter: FilterUid { uid: 0 } };
    assert_eq!(state.command(remove), Ok(line));
    assert_eq!(state.charts().series(line), None);
    assert_eq!(
        state.charts().series(LineUid::CatchAll),
        Some(vec![point(0, 0, 100, 1), point(1, 5, 110, 2), point(2, 10, 10, 1), point(3, 12, 70, 2)])
    );
    assert_eq!(state.charts().cursor(), Cursor { epoch: 8, seq: 4 });
    assert_eq!(state.charts().len(), 2);
}

#[test]
fn dropping_a_line() {
    let mem = Mem::new();
    let filters = Filters::new();
    let mut charts = Charts::new();
    charts.rebuild(LineUid::Everything, &vec![], &filters, &mem).unwrap();
    charts.rebuild(LineUid::CatchAll, &vec![], &filters, &mem).unwrap();
    charts.drop_line(LineUid::Filter(FilterUid { uid: 0 }));
    assert_eq!(charts.cursor(), Cursor { epoch: 2, seq: 0 });
    assert_eq!(charts.len(), 2);
    charts.drop_line(LineUid::Everything);
    assert_eq!(charts.cursor(), Cursor { epoch: 3, seq: 0 });
    assert_eq!(charts.len(), 1);
    assert_eq!(charts.series(LineUid::Everything), None);
    assert_eq!(charts.series(LineUid::CatchAll), Some(vec![]));
}

#[test]
fn last_points_show_what_is_live() {
    let mut state = State::new();
    let big = state
        .command(Command::Add { color: Color::new(0, 0, 0), pred: size_above(50) })
        .unwrap();
    let hot = state
        .command(Command::Add {
            color: Color::new(0, 0, 0),
            pred: Predicate::Test(Condition::Label("hot".to_string())),
        })
        .unwrap();
    let events = vec![
        birth(1, 100, &["hot"], 0),
        birth(2, 10, &["cold"], 1),
        birth(3, 60, &["cold"], 2),
        Event::Death { id: 1, timestamp: 3 },
        birth(4, 7, &["hot"], 4),
        birth(5, 51, &["hot", "cold"], 5),
        Event::Death { id: 2, timestamp: 6 },
        Event::Death { id: 5, timestamp: 7 },
        birth(6, 1, &[], 8),
    ];
    for event in events {
        state.ingest(event).unwrap();
        for line in [LineUid::Everything, LineUid::CatchAll, big, hot] {
            let mut bytes = 0;
            let mut count = 0;
            for record in state.store().snapshot() {
                let lines = state.filters().classify(&record, state.mem()).unwrap();
                if record.is_live() && lists_line(&lines, line) {
                    bytes += record.size;
                    count += 1;
                }
            }
            let series = state.charts().series(line).unwrap();
            let shown = series.last().map_or((0, 0), |point| (point.live_bytes, point.live_count));
            assert_eq!(shown, (bytes, count), "{:?}", line);
        }
    }
    assert_eq!(
        state.charts().series(hot).unwrap().last(),
        Some(&point(7, 7, 7, 1))
    );
    assert_eq!(
        state.charts().series(big).unwrap().last(),
        Some(&point(7, 7, 60, 1))
    );
    assert_eq!(
        state.charts().series(LineUid::CatchAll).unwrap().last(),
        Some(&point(8, 8, 1, 1))
    );
    assert_eq!(
        state.charts().series(LineUid::Everything).unwrap().last(),
        Some(&point(8, 8, 68, 3))
    );
}

#[test]
fn a_cursor_never_goes_back() {
    let mut state = State::new();
    let mut cursor = Cursor::start();
    let mut last = cursor.seq;
    for id in 0..5 {
        state.ingest(birth(id, 1, &[], id)).unwrap();
        state.charts().drain_since(&mut cursor);
        assert!(cursor.seq >= last);
        assert_eq!(cursor.seq, id as usize + 1);
        last = cursor.seq;
    }
    state.command(Command::Add { color: Color::new(0, 0, 0), pred: size_above(0) }).unwrap();
    state.charts().drain_since(&mut cursor);
    assert_eq!(cursor, Cursor { epoch: 4, seq: 5 });
}
