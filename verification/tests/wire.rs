use xmip_core_runtime::abi::Status;
use xmip_core_runtime::boundary::{fill_copied, refuse, scope_text};
use xmip_core_runtime::observe::{Counted, Health, Light, NodeKind, Origin, Pattern};
use xmip_core_runtime::topology::{
    xmip_topology_kind_words_v1, xmip_topology_origin_words_v1, xmip_topology_pattern_words_v1,
    Words,
};
use xmip_core_runtime::wire::{
    from_wire_counted, from_wire_health, from_wire_kind, from_wire_origin, from_wire_pattern,
    wire_counted, wire_health, wire_kind, wire_light, wire_origin, wire_pattern, CountedCodes,
    HealthCodes, LightCodes,
};

const MOODS: [Health; 7] = [
    Health::Fine,
    Health::Paused,
    Health::Working,
    Health::Stressed,
    Health::Exhausted,
    Health::Done,
    Health::Holding,
];

const COUNTED: [Counted; 6] = [
    Counted::Streams,
    Counted::Messages,
    Counted::Journeys,
    Counted::Bytes,
    Counted::Retrying,
    Counted::Failed,
];

const KINDS: [NodeKind; 15] = [
    NodeKind::Computer,
    NodeKind::Server,
    NodeKind::VirtualMachine,
    NodeKind::Gateway,
    NodeKind::Appliance,
    NodeKind::Service,
    NodeKind::Process,
    NodeKind::Interface,
    NodeKind::Port,
    NodeKind::Protocol,
    NodeKind::Location,
    NodeKind::Cluster,
    NodeKind::Node,
    NodeKind::Stage,
    NodeKind::Endpoint,
];

const ORIGINS: [Origin; 3] = [Origin::Configured, Origin::Observed, Origin::Both];

const PATTERNS: [Pattern; 7] = [
    Pattern::RequestResponse,
    Pattern::SendReceive,
    Pattern::PublishConsume,
    Pattern::Streaming,
    Pattern::FireAndForget,
    Pattern::Session,
    Pattern::Retry,
];

fn moods() -> HealthCodes {
    HealthCodes {
        fine: 0,
        paused: 1,
        working: 2,
        stressed: 3,
        exhausted: 4,
        done: 5,
        holding: 6,
    }
}

fn counted() -> CountedCodes {
    CountedCodes {
        streams: 1,
        messages: 2,
        journeys: 3,
        bytes: 4,
        retrying: 5,
        failed: 6,
    }
}

#[test]
fn every_counted_thing_the_header_names_comes_back() {
    let codes = counted();

    assert_eq!(
        from_wire_counted(&codes, codes.streams),
        Some(Counted::Streams)
    );
    assert_eq!(
        from_wire_counted(&codes, codes.retrying),
        Some(Counted::Retrying)
    );
    assert_eq!(
        from_wire_counted(&codes, codes.failed),
        Some(Counted::Failed)
    );
    assert_eq!(from_wire_counted(&codes, 0), None);
}

#[test]
fn health_crosses_as_the_header_says() {
    let codes = moods();

    assert_eq!(wire_health(&codes, Health::Fine), codes.fine);
    assert_eq!(wire_health(&codes, Health::Holding), codes.holding);
}

#[test]
fn every_mood_comes_back_from_its_wire_value_and_nothing_else_does() {
    let codes = moods();
    for mood in MOODS {
        assert_eq!(
            from_wire_health(&codes, wire_health(&codes, mood)),
            Some(mood)
        );
    }
    assert_eq!(from_wire_health(&codes, 7), None);
    assert_eq!(from_wire_health(&codes, -1), None);
}

#[test]
fn every_counted_thing_crosses_and_comes_back() {
    let codes = counted();
    for thing in COUNTED {
        assert_eq!(
            from_wire_counted(&codes, wire_counted(&codes, thing)),
            Some(thing)
        );
    }
}

#[test]
fn every_topology_word_has_its_own_header_value_in_the_headers_order() {
    let kinds: Vec<i32> = KINDS.iter().map(|k| wire_kind(*k)).collect();
    let origins: Vec<i32> = ORIGINS.iter().map(|o| wire_origin(*o)).collect();
    let patterns: Vec<i32> = PATTERNS.iter().map(|p| wire_pattern(*p)).collect();

    assert_eq!(kinds, (0..15).collect::<Vec<i32>>());
    assert_eq!(origins, [0, 1, 2]);
    assert_eq!(patterns, (0..7).collect::<Vec<i32>>());

    for kind in KINDS {
        assert_eq!(from_wire_kind(wire_kind(kind)), Some(kind));
    }
    for origin in ORIGINS {
        assert_eq!(from_wire_origin(wire_origin(origin)), Some(origin));
    }
    for pattern in PATTERNS {
        assert_eq!(from_wire_pattern(wire_pattern(pattern)), Some(pattern));
    }
}

#[test]
fn a_light_crosses_as_the_header_says() {
    let codes = LightCodes {
        green: 0,
        yellow: 1,
        red: 2,
    };

    assert_eq!(wire_light(&codes, Light::Green), 0);
    assert_eq!(wire_light(&codes, Light::Yellow), 1);
    assert_eq!(wire_light(&codes, Light::Red), 2);
}

fn kind_words(kind: NodeKind) -> Words {
    match kind {
        NodeKind::Cluster => Words {
            word: "cluster",
            name: "Cluster",
        },
        _ => Words {
            word: "other",
            name: "Other",
        },
    }
}

fn origin_words(origin: Origin) -> Words {
    match origin {
        Origin::Both => Words {
            word: "both",
            name: "Configured and observed",
        },
        _ => Words {
            word: "one",
            name: "One",
        },
    }
}

fn pattern_words(pattern: Pattern) -> Words {
    match pattern {
        Pattern::Retry => Words {
            word: "retry",
            name: "Retry",
        },
        _ => Words {
            word: "other",
            name: "Other",
        },
    }
}

#[test]
fn every_value_crosses_with_the_word_and_name_observe_gives_it() {
    for kind in KINDS {
        assert_eq!(
            xmip_topology_kind_words_v1(wire_kind(kind), kind_words),
            Ok(kind_words(kind))
        );
    }
    for origin in ORIGINS {
        assert_eq!(
            xmip_topology_origin_words_v1(wire_origin(origin), origin_words),
            Ok(origin_words(origin))
        );
    }
    for pattern in PATTERNS {
        assert_eq!(
            xmip_topology_pattern_words_v1(wire_pattern(pattern), pattern_words),
            Ok(pattern_words(pattern))
        );
    }
}

#[test]
fn a_value_no_enum_defines_is_refused() {
    for value in [99, -1] {
        assert_eq!(
            xmip_topology_kind_words_v1(value, kind_words),
            Err(Status::Invalid)
        );
        assert_eq!(
            xmip_topology_origin_words_v1(value, origin_words),
            Err(Status::Invalid)
        );
        assert_eq!(
            xmip_topology_pattern_words_v1(value, pattern_words),
            Err(Status::Invalid)
        );
    }
}

#[test]
fn text_crosses_where_it_is_utf8_and_nothing_is_empty_text() {
    assert_eq!(
        scope_text(Some("xmip:///\u{e5}".as_bytes())),
        Some("xmip:///\u{e5}")
    );
    assert_eq!(scope_text(Some(b"")), Some(""));
    assert_eq!(scope_text(None), Some(""));
    assert_eq!(scope_text(Some(&[0x61, 0xff])), None);
    assert_eq!(scope_text(Some(&[0xc3])), None);
}

#[test]
fn a_short_buffer_gets_the_beginning_and_the_true_length() {
    let filled = fill_copied(&[7, 8, 9], 2);
    assert_eq!((filled.entries.as_slice(), filled.count), (&[7, 8][..], 3));

    let again = fill_copied(&[7, 8, 9], filled.count);
    assert_eq!(again.entries, [7, 8, 9]);

    let written = refuse("REFUSED", 3);
    assert_eq!((written.bytes.as_slice(), written.length), (&b"REF"[..], 7));
    assert_eq!(refuse("REFUSED", 0).length, 7);
    assert_eq!(refuse("\u{e5}", 9).bytes, [0xc3, 0xa5]);
}
