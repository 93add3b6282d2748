use xmip_core_runtime::abi::{
    ExecutionHostKind, ModuleCapability, ModuleEntrypoint, ModuleIdentity, ModuleManifest, Status,
};
use xmip_core_runtime::audit::{
    audit_request, xmip_audit_v1, Asked, AuditCodes, AuditOutcome, AuditRequest, ExecutionPhase,
    Severity,
};
use xmip_core_runtime::configure::{
    ModuleConfiguration, ServiceConfiguration, XmipConfigurationDocument, XmipProcessConfiguration,
};
use xmip_core_runtime::observe::Light;
use xmip_core_runtime::start::{
    now_unix_nanos, start, started, unconfigured, xmip_start_v1, xmip_validate_v1, Found,
    NodeConfiguration, UNBUILT,
};

fn module() -> ModuleConfiguration {
    ModuleConfiguration {
        name: "file".to_string(),
        start: true,
        manifest: ModuleManifest {
            identity: ModuleIdentity {
                name: "file".to_string(),
                version: "0.1.0".to_string(),
            },
            capabilities: vec![ModuleCapability {
                capability: "transport:file".to_string(),
                execution_host: ExecutionHostKind::NativeRust,
                trusted_required: true,
            }],
            entrypoint: ModuleEntrypoint {
                library_path: Some("xmip_core_transport_file".to_string()),
                executable_path: None,
                symbol: Some("xmip_create_module_v1".to_string()),
            },
        },
    }
}

fn process() -> XmipProcessConfiguration {
    XmipProcessConfiguration {
        name: "approval".to_string(),
        start: true,
        required_modules: vec!["file".to_string()],
        xmip_subprocesses: Vec::new(),
        extensions: Vec::new(),
    }
}

fn configuration() -> NodeConfiguration {
    NodeConfiguration {
        node_name: "edge-01".to_string(),
        modules: vec![module()],
        xmip_processes: vec![process()],
    }
}

fn document() -> XmipConfigurationDocument {
    XmipConfigurationDocument {
        service: ServiceConfiguration {
            name: "xmip-edge-01".to_string(),
            cluster_name: "lab".to_string(),
            node_name: "edge-01".to_string(),
        },
        modules: vec![module()],
        xmip_processes: vec![process()],
        receive_locations: Vec::new(),
        send_locations: Vec::new(),
    }
}

#[test]
fn starting_from_a_missing_file_is_red_and_says_which_file() {
    let records = start(
        "Z:/no/such/node.toml",
        Found::Unreadable("not found".to_string()),
        7,
    );

    assert_eq!(records.len(), 1);
    assert_eq!(records[0].scope, "xmip:///");
    assert_eq!(records[0].light, Light::Red);
    assert!(records[0].evidence.contains("no/such/node.toml"));
    assert_eq!(records[0].observed_unix_nanos, 7);
}

#[test]
fn starting_from_a_valid_file_plans_the_node_and_says_it_is_not_running() {
    let records = start(
        "node.toml",
        Found::Parsed {
            configuration: configuration(),
            document: Ok(document()),
        },
        7,
    );

    assert_eq!(records.len(), 3, "node, one module, one process");
    assert!(
        records.iter().all(|r| r.light == Light::Yellow),
        "planned, not running"
    );
    assert!(records
        .iter()
        .any(|r| r.scope == "xmip:///edge-01/module/file"));
    assert!(records
        .iter()
        .any(|r| r.scope == "xmip:///edge-01/process/approval"));
    assert!(records[0].evidence.contains("not built yet"));
    assert_eq!(
        records[0].evidence,
        "1 module(s), 1 process(es) validated and planned; not running \u{2014} \
         phases 4\u{2013}9 (start, load, accept work) are not built yet"
    );
    assert_eq!(
        records[1].evidence,
        "planned, not loaded (0.1.0) \u{2014} \
         phases 4\u{2013}9 (start, load, accept work) are not built yet"
    );
    assert_eq!(
        records[2].evidence,
        "planned, not started; needs file \u{2014} \
         phases 4\u{2013}9 (start, load, accept work) are not built yet"
    );
    assert!(records.iter().all(|r| r.evidence.ends_with(UNBUILT)));
}

#[test]
fn what_does_not_start_has_no_record() {
    let mut stopped = configuration();
    stopped.modules[0].start = false;
    stopped.xmip_processes[0].start = false;
    let records = start(
        "node.toml",
        Found::Parsed {
            configuration: stopped,
            document: Ok(document()),
        },
        7,
    );

    assert_eq!(records.len(), 1);
    assert!(records[0].evidence.starts_with("0 module(s), 0 process(es)"));
}

#[test]
fn a_configuration_that_does_not_parse_or_validate_is_red_with_the_errors() {
    let unparsed = start("node.toml", Found::Unparsed("line 1".to_string()), 7);
    assert_eq!(unparsed[0].evidence, "node.toml does not parse: line 1");

    let mut unsound = document();
    unsound.modules = Vec::new();
    unsound.xmip_processes[0]
        .required_modules
        .push("ftp".to_string());
    let refused = start(
        "node.toml",
        Found::Parsed {
            configuration: configuration(),
            document: Ok(unsound),
        },
        7,
    );
    assert_eq!(refused.len(), 1);
    assert_eq!(refused[0].scope, "xmip:///edge-01");
    assert_eq!(refused[0].light, Light::Red);
    assert_eq!(
        refused[0].evidence,
        "configuration refused: Xmip Process 'approval' requires missing module 'file'; \
         Xmip Process 'approval' requires missing module 'ftp'"
    );
}

#[test]
fn an_unconfigured_runtime_is_yellow_and_says_what_to_do() {
    let record = unconfigured(3);

    assert_eq!(record.light, Light::Yellow);
    assert_eq!(record.scope, "xmip:///");
    assert!(record.evidence.contains("give xmip_start_v1 a node TOML"));
}

#[test]
fn a_clock_that_cannot_be_counted_is_the_nearest_moment_that_can() {
    assert_eq!(now_unix_nanos(None), 0);
    assert_eq!(now_unix_nanos(Some(5)), 5);
    assert_eq!(now_unix_nanos(Some(i64::MAX as u128)), i64::MAX);
    assert_eq!(now_unix_nanos(Some(i64::MAX as u128 + 1)), i64::MAX);
}

#[test]
fn a_node_that_is_nowhere_red_was_started() {
    assert_eq!(xmip_start_v1(Some(b"node.toml")), Ok("node.toml"));
    assert_eq!(xmip_start_v1(Some(&[0xff])), Err(Status::Malformed));
    assert_eq!(started(Some(Light::Red)), Status::Invalid);
    assert_eq!(started(Some(Light::Yellow)), Status::Okay);
    assert_eq!(started(None), Status::Okay);
}

fn problems(text: &str) -> Vec<String> {
    text.split(',')
        .filter(|part| !part.is_empty())
        .map(str::to_string)
        .collect()
}

#[test]
fn a_report_is_one_problem_per_line() {
    let bad = xmip_validate_v1(Some(b"one,two"), 5, problems).expect("text");
    assert_eq!(bad.status, Status::Invalid);
    assert_eq!(bad.report.bytes, b"one\nt");
    assert_eq!(bad.report.length, 7);

    let good = xmip_validate_v1(Some(b""), 5, problems).expect("text");
    assert_eq!(good.status, Status::Okay);
    assert_eq!(good.report.length, 0);

    assert_eq!(
        xmip_validate_v1(Some(&[0xff]), 5, problems).err(),
        Some(Status::Malformed)
    );
}

fn codes() -> AuditCodes {
    AuditCodes {
        begin: 0,
        execute: 1,
        finished: 2,
        failure: 3,
        information: 0,
        warning: 1,
        error: 2,
        suppressed: 0,
        persisted: 1,
        operating_system: 2,
    }
}

fn asked<'a>(phase: i32, properties: &'a [Option<&'a [u8]>]) -> Asked<'a> {
    Asked {
        program: Some(b"xmip-core-runtime tests"),
        directory: Some(b""),
        action: Some(b"probe"),
        phase,
        severity: 0,
        message: Some(b"written by the runtime's own test"),
        properties: Some(properties),
        properties_len: properties.len(),
    }
}

fn persisted(_request: AuditRequest<'_>) -> Result<AuditOutcome, String> {
    Ok(AuditOutcome::Persisted)
}

fn logged(_request: AuditRequest<'_>) -> Result<AuditOutcome, String> {
    Ok(AuditOutcome::OperatingSystem {
        log: "syslog".to_string(),
        reason: "disk full".to_string(),
    })
}

fn suppressed(_request: AuditRequest<'_>) -> Result<AuditOutcome, String> {
    Ok(AuditOutcome::Suppressed)
}

fn failed(_request: AuditRequest<'_>) -> Result<AuditOutcome, String> {
    Err("no sink".to_string())
}

#[test]
fn a_phase_the_header_does_not_define_or_an_odd_list_is_invalid() {
    assert_eq!(
        xmip_audit_v1(&codes(), asked(9, &[]), 99, persisted).err(),
        Some(Status::Invalid)
    );
    assert_eq!(
        xmip_audit_v1(&codes(), asked(0, &[Some(b"key")]), 99, persisted).err(),
        Some(Status::Invalid)
    );
    let mut severe = asked(0, &[]);
    severe.severity = 9;
    assert_eq!(
        audit_request(&codes(), severe).err(),
        Some(Status::Invalid)
    );
    let mut absent = asked(0, &[]);
    absent.properties = None;
    assert!(audit_request(&codes(), absent).is_ok());
    absent.properties_len = 2;
    assert_eq!(
        audit_request(&codes(), absent).err(),
        Some(Status::Invalid)
    );
}

#[test]
fn a_record_is_asked_for_as_it_was_said() {
    let properties: [Option<&[u8]>; 6] = [
        Some(b"url"),
        Some(b"http://127.0.0.1:5087"),
        Some(b"a"),
        Some(b"1"),
        Some(b"url"),
        Some(b"later"),
    ];
    let request = audit_request(&codes(), asked(2, &properties)).expect("asked");

    assert_eq!(request.program, "xmip-core-runtime tests");
    assert_eq!(request.directory, None);
    assert_eq!(request.action, "probe");
    assert_eq!(request.phase, ExecutionPhase::Finished);
    assert_eq!(request.severity, Severity::Information);
    assert_eq!(request.message, Some("written by the runtime's own test"));
    let pairs: Vec<(&str, &str)> = request
        .properties
        .entries()
        .iter()
        .map(|entry| (entry.name.as_str(), entry.value.as_str()))
        .collect();
    assert_eq!(pairs, [("a", "1"), ("url", "later")]);

    let malformed: [Option<&[u8]>; 2] = [Some(b"key"), Some(&[0xff])];
    assert_eq!(
        audit_request(&codes(), asked(2, &malformed)).err(),
        Some(Status::Malformed)
    );
}

#[test]
fn what_became_of_a_record_goes_back_as_it_was() {
    let kept = xmip_audit_v1(&codes(), asked(0, &[]), 99, persisted).expect("recorded");
    assert_eq!((kept.status, kept.kept), (Status::Okay, Some(1)));
    assert!(kept.said.bytes.is_empty());

    let quiet = xmip_audit_v1(&codes(), asked(0, &[]), 99, suppressed).expect("recorded");
    assert_eq!((quiet.status, quiet.kept), (Status::Okay, Some(0)));

    let fallen_back = xmip_audit_v1(&codes(), asked(0, &[]), 6, logged).expect("recorded");
    assert_eq!((fallen_back.status, fallen_back.kept), (Status::Okay, Some(2)));
    assert_eq!(fallen_back.said.bytes, b"syslog");
    assert_eq!(fallen_back.said.length, "syslog: disk full".len());

    let lost = xmip_audit_v1(&codes(), asked(0, &[]), 99, failed).expect("recorded");
    assert_eq!((lost.status, lost.kept), (Status::Io, None));
    assert_eq!(lost.said.bytes, b"no sink");
}
