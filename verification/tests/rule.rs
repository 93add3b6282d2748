use xmip_core_runtime::abi::Status;
use xmip_core_runtime::observe::{Counted, Health};
use xmip_core_runtime::rule::node::{
    xmip_capability_entry_v1, xmip_stage_declared_v1, xmip_stage_location_v1,
    xmip_stage_pausable_v1, xmip_stage_words_v1, Capability,
};
use xmip_core_runtime::rule::{
    xmip_capability_published_v1, xmip_counted_word_v1, xmip_health_color_v1, xmip_health_named_v1,
    xmip_health_order_v1, xmip_health_rolled_v1, xmip_health_word_v1, xmip_scope_contains_v1,
    xmip_scope_node_v1, xmip_scope_parts_v1, xmip_stage_counted_v1, HealthEntry, Ranked,
};
use xmip_core_runtime::wire::{wire_counted, wire_health, CountedCodes, HealthCodes};

const MOODS: [Health; 7] = [
    Health::Fine,
    Health::Paused,
    Health::Working,
    Health::Stressed,
    Health::Exhausted,
    Health::Done,
    Health::Holding,
];

const WORDS: [&str; 3] = ["receive", "process", "send"];

fn moods() -> HealthCodes {
    HealthCodes {
        fine: 0,
        paused: 1,
        working: 2,
        stressed: 3,
        exhausted: 4,
        done: 5,
        holding: 6,
    }
}

fn kinds() -> CountedCodes {
    CountedCodes {
        streams: 1,
        messages: 2,
        journeys: 3,
        bytes: 4,
        retrying: 5,
        failed: 6,
    }
}

// The owners, as far as the rules ask them anything.

fn segments(scope: &str) -> Vec<&str> {
    let rest = match scope.find("://") {
        Some(at) => &scope[at + 3..],
        None => return Vec::new(),
    };
    let path = match rest.find('/') {
        Some(at) => &rest[at + 1..],
        None => return Vec::new(),
    };
    path.split('/').filter(|part| !part.is_empty()).collect()
}

fn contains(scope: &str, candidate: &str) -> bool {
    let (one, other) = (segments(scope), segments(candidate));
    other.len() >= one.len() && other[..one.len()] == one[..]
}

fn node_of(scope: &str) -> Option<&str> {
    let parts = segments(scope);
    if parts.len() > 2 && parts[1] == "node" {
        Some(parts[2])
    } else {
        None
    }
}

fn stage_of(scope: &str) -> Option<&'static str> {
    let parts = segments(scope);
    WORDS
        .into_iter()
        .find(|word| parts.len() > 3 && parts[3] == *word)
}

fn word(mood: Health) -> &'static str {
    match mood {
        Health::Fine => "fine",
        Health::Paused => "paused",
        Health::Working => "working",
        Health::Stressed => "stressed",
        Health::Exhausted => "exhausted",
        Health::Done => "done",
        Health::Holding => "holding",
    }
}

fn color(mood: Health) -> &'static str {
    match mood {
        Health::Fine => "green",
        Health::Holding | Health::Done => "red",
        _ => "yellow",
    }
}

fn named(text: &str) -> Option<Health> {
    MOODS.into_iter().find(|mood| word(*mood) == text)
}

fn rolled(mood: Health) -> Health {
    match mood {
        Health::Done => Health::Stressed,
        other => other,
    }
}

fn counted_word(counted: Counted) -> &'static str {
    match counted {
        Counted::Streams => "streams",
        Counted::Messages => "messages",
        Counted::Journeys => "journeys",
        Counted::Bytes => "bytes",
        Counted::Retrying => "retrying",
        Counted::Failed => "failed",
    }
}

fn counted_at(stage: &str) -> Option<Counted> {
    match stage {
        "receive" => Some(Counted::Streams),
        "process" => Some(Counted::Journeys),
        "send" => Some(Counted::Messages),
        _ => None,
    }
}

fn worst_first(ranked: &Vec<Ranked<'_>>) -> Vec<usize> {
    let rank = |mood: Health| MOODS.iter().position(|other| *other == mood);
    let mut order: Vec<usize> = (0..ranked.len()).collect();
    order.sort_by_key(|at| {
        (
            rank(ranked[*at].health).map(|place| 9 - place),
            255 - ranked[*at].severity,
            ranked[*at].scope,
        )
    });
    order
}

fn read_stages(text: &str) -> Result<Capability, String> {
    let mut features = Vec::new();
    for part in text
        .split('+')
        .map(str::trim)
        .filter(|part| !part.is_empty())
    {
        match WORDS.into_iter().find(|word| *word == part) {
            Some(word) => features.push(word),
            None => return Err(format!("REFUSED: '{part}' is no stage")),
        }
    }
    features.sort_unstable();
    Ok(Capability {
        features,
        online: false,
    })
}

fn read_entry(entry: &str) -> (&str, Result<Capability, String>) {
    match entry.split_once('=') {
        Some((name, stages)) => (name.trim(), read_stages(stages)),
        None => (entry.trim(), read_stages("")),
    }
}

fn read_record<'a>(
    scope: &'a str,
    evidence: &'a str,
) -> Option<(&'a str, Result<Capability, String>)> {
    let parts = segments(scope);
    if parts.last() != Some(&"capability") {
        return None;
    }
    let said = match evidence {
        "declares send; online;" => Ok(Capability {
            features: vec!["send"],
            online: true,
        }),
        _ => Err(format!("REFUSED: {evidence}")),
    };
    Some((parts[parts.len() - 2], said))
}

fn pausable(stage: &str) -> Option<bool> {
    counted_at(stage).map(|_| stage != "process")
}

fn location(stage: &str) -> Option<&'static str> {
    match stage {
        "receive" => Some("Receive Location"),
        "process" => Some("Process"),
        "send" => Some("Send Location"),
        _ => None,
    }
}

fn entry<'a>(health: i32, severity: u8, scope: &'a str) -> HealthEntry<'a> {
    HealthEntry {
        health,
        severity,
        scope: Some(scope.as_bytes()),
    }
}

#[test]
fn a_parent_rolls_up_as_observe_says_and_a_stranger_is_refused() {
    for mood in MOODS {
        assert_eq!(
            xmip_health_rolled_v1(&moods(), wire_health(&moods(), mood), rolled),
            Ok(wire_health(&moods(), rolled(mood)))
        );
    }
    assert_eq!(
        xmip_health_rolled_v1(&moods(), 99, rolled),
        Err(Status::Invalid)
    );
}

#[test]
fn every_counted_kind_crosses_with_its_word_and_each_stage_with_its_kind() {
    for counted in [
        Counted::Streams,
        Counted::Messages,
        Counted::Journeys,
        Counted::Bytes,
        Counted::Retrying,
        Counted::Failed,
    ] {
        assert_eq!(
            xmip_counted_word_v1(&kinds(), wire_counted(&kinds(), counted), counted_word),
            Ok(counted_word(counted))
        );
    }
    for stage in WORDS {
        assert_eq!(
            xmip_stage_counted_v1(&kinds(), Some(stage.as_bytes()), counted_at),
            Ok(wire_counted(&kinds(), counted_at(stage).expect("a stage")))
        );
    }
    assert_eq!(
        xmip_stage_counted_v1(&kinds(), Some(b"capability"), counted_at),
        Err(Status::NotFound)
    );
    assert_eq!(
        xmip_stage_counted_v1(&kinds(), Some(&[0xff]), counted_at),
        Err(Status::Malformed)
    );
    assert_eq!(
        xmip_counted_word_v1(&kinds(), 0, counted_word),
        Err(Status::Invalid)
    );
}

#[test]
fn a_capability_record_crosses_as_observe_reads_it() {
    let published = |scope: &'static str, evidence: &'static str| {
        xmip_capability_published_v1(
            Some(scope.as_bytes()),
            Some(evidence.as_bytes()),
            3,
            256,
            read_record,
        )
    };

    let found =
        published("xmip:///C1/alpha/capability", "declares send; online;").expect("a record");
    assert_eq!(found.node, "alpha");
    assert_eq!(found.declared.status, Status::Okay);
    assert_eq!(found.declared.online, Some(true));
    assert_eq!(found.declared.stages.entries, ["send"]);
    assert_eq!(found.declared.refusal.length, 0);

    let found = published("xmip:///C1/alpha/capability", "declares relay;").expect("a record");
    assert_eq!(found.node, "alpha");
    assert_eq!(found.declared.status, Status::Invalid);
    assert!(found.declared.refusal.bytes.starts_with(b"REFUSED"));
    assert_eq!(found.declared.stages.count, 0);

    assert_eq!(
        published("xmip:///C1/alpha/receive", "declares send; online;").err(),
        Some(Status::NotFound)
    );
}

#[test]
fn rule_many_are_ordered_as_standing_orders_them() {
    let codes = moods();
    let entries = vec![
        entry(codes.fine, 0, "xmip:///a"),
        entry(codes.done, 60, "xmip:///d"),
        entry(codes.holding, 0, "xmip:///h"),
        entry(codes.done, 90, "xmip:///e"),
    ];
    assert_eq!(
        xmip_health_order_v1(&codes, Some(&entries), 4, true, worst_first),
        Ok(vec![2, 3, 1, 0])
    );

    let unknown = vec![entry(42, 0, "xmip:///a")];
    assert_eq!(
        xmip_health_order_v1(&codes, Some(&unknown), 1, true, worst_first),
        Err(Status::Invalid)
    );
    assert_eq!(
        xmip_health_order_v1(&codes, None, 0, false, worst_first),
        Ok(vec![])
    );
    assert_eq!(
        xmip_health_order_v1(&codes, None, 1, true, worst_first),
        Err(Status::Invalid)
    );
    let malformed = vec![HealthEntry {
        health: codes.fine,
        severity: 0,
        scope: Some(&[0xff]),
    }];
    assert_eq!(
        xmip_health_order_v1(&codes, Some(&malformed), 1, true, worst_first),
        Err(Status::Malformed)
    );
}

#[test]
fn rule_containment_is_observe_scope_and_nothing_else() {
    for (scope, candidate) in [
        ("xmip:///n", "xmip:///n/receive/a"),
        ("xmip:///n", "xmip:///nx"),
        ("", "xmip:///n"),
        ("xmip://edge-01/n", "xmip:///n/receive"),
        ("XMIP:///C1", "xmip:///C1"),
    ] {
        assert_eq!(
            xmip_scope_contains_v1(
                Some(scope.as_bytes()),
                Some(candidate.as_bytes()),
                contains
            ),
            Ok(contains(scope, candidate)),
            "{scope} / {candidate}"
        );
    }
    assert_eq!(
        xmip_scope_contains_v1(Some(&[0xff]), Some(b"xmip:///n"), contains),
        Err(Status::Malformed)
    );
}

#[test]
fn rule_the_parts_are_observe_scope_segments_borrowed_from_the_input() {
    let parts = |scope: &'static str| {
        xmip_scope_parts_v1(Some(scope.as_bytes()), 8, segments).expect("text")
    };

    assert_eq!(
        parts("xmip://lab:9000/edge-01/receive/orders/").entries,
        ["edge-01", "receive", "orders"]
    );
    assert!(parts("xmip:///").entries.is_empty());
}

#[test]
fn the_node_and_stage_are_observe_scopes_and_the_cluster_is_none() {
    let node = |scope: &'static str| {
        let found =
            xmip_scope_node_v1(Some(scope.as_bytes()), node_of, stage_of).expect("text");
        (found.node.to_string(), found.stage.to_string())
    };

    for scope in [
        "xmip:///C1/node/alpha/receive/tcp",
        "xmip:///C1/node/send/process/x",
        "xmip:///C1/round-trip/send/tcp/json",
        "xmip:///C1/node",
        "xmip:///",
    ] {
        assert_eq!(
            node(scope),
            (
                node_of(scope).unwrap_or_default().to_string(),
                stage_of(scope).unwrap_or_default().to_string()
            ),
            "{scope}"
        );
    }
    assert_eq!(
        node("xmip:///C1/node/alpha/receive/tcp"),
        ("alpha".to_string(), "receive".to_string())
    );
    assert_eq!(node("xmip:///C1/x"), (String::new(), String::new()));
}

#[test]
fn rule_a_short_buffer_is_told_the_true_count() {
    let filled = xmip_scope_parts_v1(Some(b"xmip:///a/b/c"), 0, segments).expect("text");

    assert!(filled.entries.is_empty());
    assert_eq!(filled.count, 3);
}

#[test]
fn rule_the_stage_words_are_the_node_crates() {
    let filled = xmip_stage_words_v1(&WORDS, 3);

    assert_eq!(filled.entries, WORDS);
    assert_eq!(filled.count, 3);
}

#[test]
fn node_the_stage_words_are_the_node_crates() {
    let short = xmip_stage_words_v1(&WORDS, 2);

    assert_eq!(short.entries, WORDS[..2]);
    assert_eq!(short.count, 3);
}

#[test]
fn rule_a_declaration_reads_as_stage_declared_says_and_a_refusal_crosses_whole() {
    let declared = |raw: &'static str| {
        xmip_stage_declared_v1(Some(raw.as_bytes()), 3, 256, read_stages).expect("text")
    };

    let read = declared(" send + receive ");
    assert_eq!(read.status, Status::Okay);
    assert_eq!(read.stages.entries, ["receive", "send"]);
    assert!(read.refusal.bytes.is_empty());

    let nothing = declared("");
    assert_eq!(nothing.status, Status::Okay);
    assert!(nothing.stages.entries.is_empty());

    let refused = declared("Send+relay");
    assert_eq!(refused.status, Status::Invalid);
    assert!(refused.stages.entries.is_empty());
    assert_eq!(
        refused.refusal.bytes,
        read_stages("Send+relay").expect_err("refused").as_bytes()
    );
}

#[test]
fn node_a_declaration_reads_as_stage_declared_says_and_a_refusal_crosses_whole() {
    let refused =
        xmip_stage_declared_v1(Some(b"Send+relay"), 3, 7, read_stages).expect("text");
    let said = read_stages("Send+relay").expect_err("refused");

    assert_eq!(refused.refusal.bytes, said.as_bytes()[..7]);
    assert_eq!(refused.refusal.length, said.len());
    assert_eq!(
        xmip_stage_declared_v1(Some(&[0xc3]), 3, 7, read_stages).err(),
        Some(Status::Malformed)
    );
}

#[test]
fn every_stage_crosses_with_the_facts_node_gives_it() {
    for stage in WORDS {
        assert_eq!(
            xmip_stage_pausable_v1(Some(stage.as_bytes()), pausable),
            Ok(pausable(stage).expect("a stage"))
        );
        assert_eq!(
            xmip_stage_location_v1(Some(stage.as_bytes()), location),
            Ok(location(stage).expect("a stage"))
        );
    }
    assert_eq!(
        xmip_stage_pausable_v1(Some(b"Receive"), pausable),
        Err(Status::NotFound)
    );
}

#[test]
fn an_entry_crosses_as_node_reads_it_and_its_name_survives_a_refusal() {
    let entry = |raw: &'static str| {
        xmip_capability_entry_v1(Some(raw.as_bytes()), 3, 256, read_entry).expect("text")
    };

    let found = entry(" edge-01 =send+receive");
    assert_eq!(found.node, "edge-01");
    assert_eq!(found.declared.status, Status::Okay);
    assert_eq!(found.declared.stages.entries, ["receive", "send"]);

    let bare = entry("edge-02");
    assert_eq!(bare.node, "edge-02");
    assert_eq!(bare.declared.status, Status::Okay);
    assert!(bare.declared.stages.entries.is_empty());

    let refused = entry("edge-03=relay");
    assert_eq!(refused.node, "edge-03");
    assert_eq!(refused.declared.status, Status::Invalid);
    assert!(refused.declared.stages.entries.is_empty());
    assert!(refused.declared.refusal.bytes.starts_with(b"REFUSED"));
}

#[test]
fn rule_every_mood_crosses_with_the_word_and_color_observe_gives_it() {
    for mood in MOODS {
        let code = wire_health(&moods(), mood);
        let said = xmip_health_word_v1(&moods(), code, word).expect("a mood");

        assert_eq!(said, word(mood));
        assert_eq!(
            xmip_health_color_v1(&moods(), code, color),
            Ok(color(mood))
        );
        assert_eq!(
            xmip_health_named_v1(&moods(), Some(said.as_bytes()), named),
            Ok(code)
        );
    }
}

#[test]
fn rule_an_unknown_mood_or_word_is_refused() {
    assert_eq!(
        xmip_health_word_v1(&moods(), 99, word),
        Err(Status::Invalid)
    );
    assert_eq!(
        xmip_health_color_v1(&moods(), -1, color),
        Err(Status::Invalid)
    );
    assert_eq!(
        xmip_health_named_v1(&moods(), Some(b"Fine"), named),
        Err(Status::NotFound)
    );
}
