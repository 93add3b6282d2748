use xmip_core_runtime::abi::Status;
use xmip_core_runtime::observe::{Count, Counted, Light, LightRecord};
use xmip_core_runtime::operate::{
    health_entries, health_entry, measure_entry, measurement, xmip_operate_v1,
};
use xmip_core_runtime::operator::{Board, Operator, Source};
use xmip_core_runtime::wire::{CountedCodes, LightCodes};

const SPOKEN: u32 = 1;

#[derive(Clone, Debug, PartialEq)]
struct Snapshot {
    health: Vec<(&'static str, Light, &'static str, i64)>,
    counts: Vec<(&'static str, Counted, u64)>,
}

fn snapshot() -> Snapshot {
    Snapshot {
        health: vec![
            ("xmip:///edge-01/transport/ftp", Light::Green, "", 10),
            (
                "xmip:///edge-01/transport/sftp",
                Light::Red,
                "refused by partner-x",
                11,
            ),
        ],
        counts: vec![
            ("xmip:///edge-01/transport/ftp", Counted::Streams, 40),
            ("xmip:///edge-01/transport/sftp", Counted::Streams, 2),
        ],
    }
}

fn nothing() -> Snapshot {
    Snapshot {
        health: Vec::new(),
        counts: Vec::new(),
    }
}

fn lights() -> LightCodes {
    LightCodes {
        green: 0,
        yellow: 1,
        red: 2,
    }
}

fn kinds() -> CountedCodes {
    CountedCodes {
        streams: 1,
        messages: 2,
        journeys: 3,
        bytes: 4,
        retrying: 5,
        failed: 6,
    }
}

/// Every record beneath a scope, worst first.
fn health(snapshot: &Snapshot, scope: &str) -> Vec<LightRecord> {
    let mut records: Vec<LightRecord> = snapshot
        .health
        .iter()
        .filter(|record| record.0.starts_with(scope))
        .map(|record| LightRecord {
            scope: record.0.to_string(),
            light: record.1,
            evidence: record.2.to_string(),
            observed_unix_nanos: record.3,
        })
        .collect();
    records.sort_by_key(|record| match record.light {
        Light::Red => 0,
        Light::Yellow => 1,
        Light::Green => 2,
    });
    records
}

/// The sum over everything beneath a scope.
fn measure(snapshot: &Snapshot, scope: &str, counted: Counted) -> Option<Count> {
    let found: Vec<u64> = snapshot
        .counts
        .iter()
        .filter(|count| count.0.starts_with(scope) && count.1 == counted)
        .map(|count| count.2)
        .collect();
    if found.is_empty() {
        return None;
    }
    Some(Count {
        scope: scope.to_string(),
        counted,
        value: found.iter().sum(),
        window_start_unix_nanos: 0,
        window_end_unix_nanos: 60,
        observed_unix_nanos: 60,
    })
}

#[test]
fn a_surface_reads_health_worst_first_through_the_table() {
    let mut operator = Operator::new(snapshot());
    let outcome = health_entry(&mut operator, &snapshot(), Some(b"xmip:///edge-01"), health);

    assert_eq!(outcome.status, Status::Okay);
    assert_eq!(outcome.count, Some(2));
    let entries = health_entries(&operator, &lights(), 4);
    assert_eq!(entries.len(), 2);
    assert_eq!(entries[0].health, lights().red);
    assert_eq!(entries[0].evidence, "refused by partner-x");
}

#[test]
fn a_short_buffer_is_told_the_true_count_and_nothing_is_truncated_silently() {
    let mut operator = Operator::new(snapshot());
    let outcome = health_entry(&mut operator, &snapshot(), Some(b"xmip:///edge-01"), health);

    assert_eq!(outcome.status, Status::Okay);
    assert_eq!(outcome.count, Some(2));
    assert!(health_entries(&operator, &lights(), 0).is_empty());
    assert_eq!(health_entries(&operator, &lights(), 1).len(), 1);
}

#[test]
fn a_node_measurement_is_the_sum_and_a_scope_with_nothing_is_not_found() {
    let mut operator = Operator::new(snapshot());
    let outcome = measure_entry(
        &mut operator,
        &snapshot(),
        Some(b"xmip:///edge-01"),
        &kinds(),
        kinds().streams,
        measure,
    );

    assert_eq!(outcome.status, Status::Okay);
    assert_eq!(outcome.count, Some(1));
    let entry = measurement(&operator, kinds().streams, 1).expect("held");
    assert_eq!(entry.value, 42);
    assert_eq!(entry.counted, kinds().streams);
    assert!(measurement(&operator, kinds().streams, 0).is_none());

    let missing = measure_entry(
        &mut operator,
        &snapshot(),
        Some(b"xmip:///nowhere"),
        &kinds(),
        kinds().streams,
        measure,
    );
    assert_eq!(missing.status, Status::NotFound);
    assert_eq!(missing.count, Some(0));
}

#[test]
fn the_export_refuses_a_version_it_does_not_speak_and_leaves_out_alone() {
    assert_eq!(
        xmip_operate_v1(99, SPOKEN, Some(snapshot()), nothing()).err(),
        Some(Status::Unsupported)
    );
}

#[test]
fn the_export_hands_out_what_was_published() {
    let mut board: Board<Snapshot> = Board::new();
    board.publish(snapshot());

    let mut operator =
        xmip_operate_v1(SPOKEN, SPOKEN, board.published.clone(), nothing()).expect("spoken");
    let read = operator.snapshot(&board, &nothing()).clone();
    let outcome = health_entry(&mut operator, &read, Some(b"xmip:///edge-01"), health);

    assert_eq!(outcome.status, Status::Okay);
    assert_eq!(outcome.count, Some(2));
}

#[test]
fn a_kind_this_build_does_not_know_is_refused_as_invalid() {
    let mut operator = Operator::new(snapshot());
    let outcome = measure_entry(
        &mut operator,
        &snapshot(),
        Some(b"xmip:///edge-01"),
        &kinds(),
        99,
        measure,
    );

    assert_eq!(outcome.status, Status::Invalid);
    assert_eq!(outcome.count, None);
}

#[test]
fn a_scope_that_is_no_text_is_malformed_and_changes_nothing() {
    let mut operator = Operator::new(snapshot());
    health_entry(&mut operator, &snapshot(), Some(b"xmip:///edge-01"), health);
    let outcome = health_entry(&mut operator, &snapshot(), Some(&[0xff]), health);

    assert_eq!(outcome.status, Status::Malformed);
    assert_eq!(operator.held_health.len(), 2);
    let none = health_entry(&mut operator, &snapshot(), Some(b"xmip:///nowhere"), health);
    assert_eq!((none.status, none.count), (Status::NotFound, Some(0)));
}

#[test]
fn a_live_table_sees_the_node_once_it_has_started() {
    let mut board: Board<Snapshot> = Board::new();
    let unconfigured = nothing();
    let live: Operator<Snapshot> = Operator::live();
    let mut fixed = Operator::new(nothing());

    assert_eq!(live.snapshot(&board, &unconfigured), &nothing());
    board.publish(snapshot());
    assert_eq!(live.snapshot(&board, &unconfigured), &snapshot());
    assert_eq!(fixed.snapshot(&board, &unconfigured), &nothing());
    assert_eq!(board.revision, 1);
    fixed.publish(snapshot());
    assert_eq!(fixed.snapshot(&board, &unconfigured), &snapshot());

    board.revision = u64::MAX;
    board.announce_change();
    assert_eq!(board.revision, 1, "never zero");
}

#[test]
fn changing_a_live_table_changes_what_every_live_table_reads() {
    let drop_all = |mut snapshot: Snapshot| {
        let dropped = snapshot.health.len();
        snapshot.health.clear();
        (snapshot, dropped)
    };
    let mut board = Board::new();
    board.publish(snapshot());

    let (source, board, dropped) = Source::Published.mutate(board, nothing(), drop_all);
    assert!(matches!(source, Source::Published));
    assert_eq!(dropped, 2);
    assert!(board.published.as_ref().expect("published").health.is_empty());

    let (source, board, dropped) = Source::Fixed(snapshot()).mutate(board, nothing(), drop_all);
    assert_eq!(dropped, 2);
    let Source::Fixed(own) = source else {
        panic!("still fixed");
    };
    assert!(own.health.is_empty());
    assert_eq!(board.revision, 1);
}
