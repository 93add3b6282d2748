use xmip_core_runtime::abi::Status;
use xmip_core_runtime::curve;
use xmip_core_runtime::curve::{xmip_curve_points_v1, xmip_curve_read_v1, Curve};
use xmip_core_runtime::observe::{Count, Counted, Health, NodeKind, Origin, Pattern};
use xmip_core_runtime::publication::{
    xmip_publication_counts_v1, xmip_publication_head_v1, xmip_publication_links_v1,
    xmip_publication_nodes_v1, xmip_publication_read_v1, xmip_publication_records_v1,
    xmip_publication_run_v1, HealthRecord, Publication, Read, Run, RunListCodes, RunReply,
    Topology, TopologyLink, TopologyNode,
};
use xmip_core_runtime::wire::{CountedCodes, HealthCodes};

fn moods() -> HealthCodes {
    HealthCodes {
        fine: 0,
        paused: 1,
        working: 2,
        stressed: 3,
        exhausted: 4,
        done: 5,
        holding: 6,
    }
}

fn kinds() -> CountedCodes {
    CountedCodes {
        streams: 1,
        messages: 2,
        journeys: 3,
        bytes: 4,
        retrying: 5,
        failed: 6,
    }
}

fn lists() -> RunListCodes {
    RunListCodes {
        tests: 0,
        nodes: 1,
        capabilities: 2,
        online: 3,
    }
}

fn record(scope: &str, health: Health, severity: u8, evidence: &str, at: i64) -> HealthRecord {
    HealthRecord {
        scope: scope.to_string(),
        health,
        severity,
        evidence: evidence.to_string(),
        observed_unix_nanos: at,
    }
}

fn roll() -> Publication<f64> {
    Publication {
        source: "playground \u{2014} xmip:///C1".to_string(),
        node: "xmip:///C1".to_string(),
        records: vec![
            record(
                "xmip:///C1/node/alpha/receive/tcp",
                Health::Done,
                90,
                "refused",
                9,
            ),
            record(
                "xmip:///C1/node/alpha/capability",
                Health::Stressed,
                0,
                "declares receive; online; x",
                7,
            ),
        ],
        counts: vec![Count {
            scope: "xmip:///C1".to_string(),
            counted: Counted::Streams,
            value: 4,
            window_start_unix_nanos: 0,
            window_end_unix_nanos: 0,
            observed_unix_nanos: 0,
        }],
        run: Some(Run {
            cluster: "C1".to_string(),
            stress: "harsh".to_string(),
            tests: vec!["RoundTrip".to_string()],
            nodes: vec!["alpha".to_string()],
            capabilities: vec!["alpha=receive".to_string()],
            online: vec!["alpha".to_string()],
        }),
        topology: Some(Topology {
            source: "drawn".to_string(),
            observed_unix_nanos: 5,
            nodes: vec![TopologyNode {
                id: "cluster".to_string(),
                parent: String::new(),
                label: "cluster".to_string(),
                kind: NodeKind::Cluster,
                scope: "xmip:///C1".to_string(),
                state: Health::Fine,
                origin: Origin::Configured,
                load: 0.0,
                activity: 0.5,
                evidence: String::new(),
            }],
            links: vec![TopologyLink {
                id: "handoff/alpha/beta".to_string(),
                from: "node/alpha/receive".to_string(),
                to: "node/beta/process".to_string(),
                pattern: Pattern::Retry,
                origin: Origin::Observed,
                protocol: String::new(),
                state: Health::Stressed,
                volume: 3,
                rate: 0.0,
                latency_ms: 0.0,
                progress: 0.0,
                attempts: 2,
                evidence: String::new(),
            }],
        }),
    }
}

/// The reader: a roll, a bare node file, or a stranger.
fn reader(text: &str) -> Result<Publication<f64>, String> {
    match text {
        "roll" => Ok(roll()),
        "node = 'xmip:///alpha'" => Ok(Publication {
            source: String::new(),
            node: "xmip:///alpha".to_string(),
            records: Vec::new(),
            counts: Vec::new(),
            run: None,
            topology: None,
        }),
        _ => Err("expected a closing bracket".to_string()),
    }
}

#[test]
fn a_roll_crosses_whole_as_observe_reads_it() {
    let opened = xmip_publication_read_v1(Some(b"roll"), 512, reader).expect("text");
    assert_eq!(opened.status, Status::Okay);
    assert_eq!(opened.report.length, 0);
    let publication = opened.held.expect("held");

    let head = xmip_publication_head_v1(Some(&publication)).expect("a handle");
    assert_eq!(head.node, "xmip:///C1");
    assert_eq!((head.has_run, head.stress), (1, "harsh"));
    assert_eq!(
        (head.has_topology, head.topology_observed_unix_nanos),
        (1, 5)
    );

    let read = Read::of(&publication, &moods(), &kinds());
    let records = xmip_publication_records_v1(Some(&read), 9).expect("a handle");
    let shown: Vec<i32> = records.entries.iter().map(|record| record.health).collect();
    assert_eq!(shown, [moods().done, moods().stressed]);
    assert_eq!(records.entries[0].severity, 90);
    assert_eq!(records.entries[0].evidence, "refused");

    let counts = xmip_publication_counts_v1(Some(&read), 9).expect("a handle");
    assert_eq!(counts.entries.len(), 1);
    assert_eq!(
        (counts.entries[0].counted, counts.entries[0].value),
        (kinds().streams, 4)
    );
    assert_eq!(counts.entries[0].scope, "xmip:///C1");

    let nodes = xmip_publication_nodes_v1(Some(&read), 9).expect("a handle");
    assert_eq!((nodes.entries[0].kind, nodes.entries[0].origin), (11, 0));
    assert_eq!(nodes.entries[0].label, "cluster");
    assert_eq!(nodes.entries[0].activity, 0.5);

    let links = xmip_publication_links_v1(Some(&read), 9).expect("a handle");
    assert_eq!(
        (links.entries[0].pattern, links.entries[0].attempts),
        (6, 2)
    );

    let RunReply::Okay(words) =
        xmip_publication_run_v1(Some(&publication), &lists(), lists().capabilities, 2)
    else {
        panic!("a run");
    };
    assert_eq!(words.count, 1);
    assert_eq!(words.entries[0], "alpha=receive");

    assert!(matches!(
        xmip_publication_run_v1(Some(&publication), &lists(), 9, 2),
        RunReply::Invalid
    ));
}

#[test]
fn a_node_file_has_no_run_and_a_stranger_is_refused_with_the_readers_words() {
    let opened =
        xmip_publication_read_v1(Some(b"node = 'xmip:///alpha'"), 512, reader).expect("text");
    assert_eq!(opened.status, Status::Okay);
    let publication = opened.held.expect("held");
    assert!(matches!(
        xmip_publication_run_v1(Some(&publication), &lists(), lists().tests, 0),
        RunReply::NotFound
    ));
    let head = xmip_publication_head_v1(Some(&publication)).expect("a handle");
    assert_eq!((head.has_run, head.cluster), (0, ""));
    assert_eq!((head.has_topology, head.topology_source), (0, ""));

    let refused = xmip_publication_read_v1(Some(b"not = [toml"), 512, reader).expect("text");
    assert_eq!(refused.status, Status::Invalid);
    assert!(refused.held.is_none());
    assert_eq!(refused.report.bytes, b"expected a closing bracket");
    assert_eq!(
        xmip_publication_read_v1(Some(&[0xff]), 512, reader).err(),
        Some(Status::Malformed)
    );
}

#[test]
fn without_a_handle_there_is_no_answer() {
    let none: Option<&Read<'_, f64>> = None;

    assert_eq!(
        xmip_publication_records_v1(none, 1).err(),
        Some(Status::Invalid)
    );
    assert_eq!(
        xmip_publication_counts_v1(none, 1).err(),
        Some(Status::Invalid)
    );
    assert_eq!(
        xmip_publication_nodes_v1(none, 1).err(),
        Some(Status::Invalid)
    );
    assert_eq!(
        xmip_publication_links_v1(none, 1).err(),
        Some(Status::Invalid)
    );
    assert_eq!(
        xmip_publication_head_v1::<f64>(None).err(),
        Some(Status::Invalid)
    );
    assert!(matches!(
        xmip_publication_run_v1::<f64>(None, &lists(), 0, 1),
        RunReply::Invalid
    ));
    assert_eq!(xmip_curve_points_v1(None, 1).err(), Some(Status::Invalid));
}

fn curve_reader(text: &str) -> Result<Curve, String> {
    if text == "points = 3" {
        return Err("points is no table".to_string());
    }
    Ok(Curve {
        points: vec![Count {
            scope: "xmip:///n".to_string(),
            counted: Counted::Bytes,
            value: 9,
            window_start_unix_nanos: 0,
            window_end_unix_nanos: 0,
            observed_unix_nanos: 3,
        }],
    })
}

#[test]
fn a_curve_crosses_as_observe_reads_it_and_a_stranger_is_refused() {
    let opened = xmip_curve_read_v1(Some(b"node = 'xmip:///n'"), 256, curve_reader).expect("text");
    assert_eq!(opened.status, Status::Okay);
    let curve = opened.held.expect("held");
    let read = curve::Read::of(&curve, &kinds());

    let points = xmip_curve_points_v1(Some(&read), 2).expect("a handle");
    assert_eq!(points.count, 1);
    assert_eq!(
        (
            points.entries[0].counted,
            points.entries[0].value,
            points.entries[0].observed_unix_nanos
        ),
        (kinds().bytes, 9, 3)
    );

    let refused = xmip_curve_read_v1(Some(b"points = 3"), 256, curve_reader).expect("text");
    assert_eq!(refused.status, Status::Invalid);
    assert!(refused.held.is_none());
}
