use xmip_core_runtime::abi::ModuleDescriptor;
use xmip_core_runtime::compatibility::Expectation;
use xmip_core_runtime::loaded_contract;
use xmip_core_runtime::loaded_contract::{
    bind, lifecycle, of, read_diagnostics, read_source, validate, Binding, Diagnostic,
    Source, TableVersion, Verdict, CONTRACT,
};
use xmip_core_runtime::loaded_module::{open, Opening};

const OK: i32 = 0;

fn descriptor() -> ModuleDescriptor {
    ModuleDescriptor {
        abi_version: 1,
        provider: "core".to_string(),
        module: CONTRACT.to_string(),
        standard: "rust".to_string(),
        trait_major: 1,
        trait_minor: 0,
        module_major: 0,
        module_minor: 1,
        module_patch: 0,
    }
}

fn created() -> Opening {
    Opening::Created {
        descriptor: descriptor(),
        shown: "core-contract-rust".to_string(),
        validated: Ok(()),
    }
}

#[test]
fn a_library_that_is_not_there_is_refused_naming_the_path() {
    let refusal = open(
        "no_such_module_library.dll",
        Opening::Closed("no such file".to_string()),
        &Expectation::new("contract", 1, 0),
    )
    .expect_err("nothing to open");

    assert!(refusal.contains("no_such_module_library"), "got: {refusal}");
    assert!(refusal.contains("would not open"), "got: {refusal}");
}

#[test]
fn a_file_that_is_not_a_library_is_refused_rather_than_loaded() {
    let refusal = open(
        "Cargo.toml",
        Opening::Closed("invalid header".to_string()),
        &Expectation::new("contract", 1, 0),
    )
    .expect_err("a manifest is not a module");

    assert!(refusal.contains("would not open"), "got: {refusal}");
}

#[test]
fn a_module_that_answers_is_kept() {
    let kept = open("a.so", created(), &Expectation::new(CONTRACT, 1, 0)).expect("kept");

    assert_eq!(kept, descriptor());
}

#[test]
fn the_capability_that_did_not_ask_for_it_refuses_it_naming_the_field() {
    let refusal = open("a.so", created(), &Expectation::new("transport", 1, 0))
        .expect_err("a contract module is not a transport");

    assert!(refusal.contains("descriptor.module"), "got: {refusal}");
    assert!(refusal.contains("'contract' trait"), "got: {refusal}");
    assert!(
        refusal.contains("'transport' is loading it"),
        "got: {refusal}"
    );
}

#[test]
fn a_trait_generation_apart_is_refused_naming_trait_major() {
    let refusal = open("a.so", created(), &Expectation::new(CONTRACT, 2, 0))
        .expect_err("trait_major must be equal");

    assert!(refusal.contains("trait_major 1"), "got: {refusal}");
    assert!(refusal.contains("speaks 2"), "got: {refusal}");
}

#[test]
fn a_module_without_an_entrypoint_or_that_refuses_is_turned_down_in_words() {
    let expected = Expectation::new(CONTRACT, 1, 0);

    assert_eq!(
        open("a.so", Opening::NoEntrypoint("undefined".to_string()), &expected),
        Err("a.so exports no xmip_create_module_v1: undefined. \
             Every conforming module exports exactly that symbol"
            .to_string())
    );
    assert_eq!(
        open("a.so", Opening::NotCreated(-3), &expected),
        Err("a.so refused to create a module: status -3, and *out was \
             left untouched as header section 7 requires"
            .to_string())
    );
}

#[test]
fn only_a_contract_table_that_agrees_with_its_descriptor_is_driven() {
    let version = TableVersion {
        trait_major: 1,
        trait_minor: 0,
    };
    assert_eq!(of(&descriptor(), "m", Some(version)), Ok(()));
    assert_eq!(
        of(&descriptor(), "m", None),
        Err("m names the 'contract' trait and carries no table".to_string())
    );
    let newer = TableVersion {
        trait_major: 1,
        trait_minor: 4,
    };
    assert_eq!(
        of(&descriptor(), "m", Some(newer)),
        Err("m declares trait 1.0 and its table says 1.4: \
             a module that disagrees with itself is not driven"
            .to_string())
    );
    let mut transport = descriptor();
    transport.module = "transport".to_string();
    assert_eq!(
        of(&transport, "m", Some(version)),
        Err("m answers the 'transport' trait, and only 'contract' \
             can be driven from here"
            .to_string())
    );
}

#[test]
fn an_answer_that_is_not_good_is_told_with_the_modules_own_words() {
    assert_eq!(lifecycle("m", "start", Some(OK), OK, ""), Ok(()));
    assert_eq!(
        lifecycle("m", "start", Some(-2), OK, "no memory"),
        Err("m answered status -2 to start: no memory".to_string())
    );
    assert_eq!(
        lifecycle("m", "stop", None, OK, ""),
        Err("m carries no stop".to_string())
    );
}

#[test]
fn a_descriptor_binds_only_where_a_contract_is_handed_over() {
    let bound = Binding {
        answer: OK,
        handed_over: true,
    };
    assert_eq!(bind("m", "any", Some(bound), OK), Ok(()));
    let empty = Binding {
        answer: OK,
        handed_over: false,
    };
    assert_eq!(
        bind("m", "any", Some(empty), OK),
        Err("m would not bind 'any': status 0".to_string())
    );
    assert_eq!(
        bind("m", "any", None, OK),
        Err("m carries no load".to_string())
    );
}

#[test]
fn content_is_validated_through_the_loaded_table() {
    let content = b"xmip round-trip";
    let mut source = Source::new(content);
    let mut read: Vec<u8> = Vec::new();
    loop {
        let piece = read_source(Some(&mut source), true, 4).expect("somewhere to write");
        if piece.is_empty() {
            break;
        }
        read.extend(piece);
    }
    assert_eq!(read, content);

    let judged = validate("m", Some(OK), &vec![]).expect("validate");
    assert!(judged.held(OK), "got: {judged:?}");
    assert_eq!(judged.status, OK);
    assert!(judged.diagnostics.is_empty());

    assert_eq!(
        loaded_contract::implies(Some((OK, "any".to_string())), OK).as_deref(),
        Some("any")
    );
    assert_eq!(loaded_contract::implies(Some((-4, String::new())), OK), None);
    assert_eq!(loaded_contract::implies(None, OK), None);
    assert_eq!(
        validate("m", None, &vec![]),
        Err("m carries no validate".to_string())
    );
}

#[test]
fn an_empty_stream_is_read_to_its_end_like_any_other() {
    let mut source = Source::new(b"");

    assert_eq!(source.read(16), b"");
    assert!(validate("m", Some(OK), &vec![]).expect("validate").held(OK));
}

#[test]
fn a_question_that_makes_no_sense_reads_nothing() {
    let mut source = Source::new(b"abc");

    assert_eq!(read_source(None, true, 1), None);
    assert_eq!(read_source(Some(&mut source), false, 1), None);
    assert_eq!(read_source(Some(&mut source), false, 0), Some(Vec::new()));
    assert_eq!(source.read(9), b"abc");
}

#[test]
fn a_diagnostic_says_where_if_it_knows() {
    let run = vec![
        Diagnostic {
            code: 7,
            location: "line 2".to_string(),
            message: "not closed".to_string(),
        },
        Diagnostic {
            code: -1,
            location: String::new(),
            message: "empty".to_string(),
        },
    ];
    assert_eq!(
        read_diagnostics(&run),
        ["[7] line 2: not closed", "[-1] empty"]
    );

    let judged = Verdict {
        status: OK,
        diagnostics: read_diagnostics(&run),
    };
    assert!(!judged.held(OK));
}
