use xmip_core_runtime::abi::{
    ExecutionHostKind, ExtensionEntrypoint, ExtensionManifest, ModuleCapability, ModuleEntrypoint,
    ModuleIdentity, ModuleManifest,
};
use xmip_core_runtime::configure::{
    ConfiguredLocation, ModuleConfiguration, ServiceConfiguration, XmipConfigurationDocument,
    XmipProcessConfiguration, XmipSubprocessConfiguration,
};
use xmip_core_runtime::execution_tree::{
    build_execution_tree, validate_required_module, validate_startup_configuration,
};
use xmip_core_runtime::service::{
    plan_startup_from_toml, startup_phases, startup_sequence, StartupPhase, XmipServiceState,
};

fn module(name: &str, start: bool) -> ModuleConfiguration {
    ModuleConfiguration {
        name: name.to_string(),
        start,
        manifest: ModuleManifest {
            identity: ModuleIdentity {
                name: name.to_string(),
                version: "0.1.0".to_string(),
            },
            capabilities: vec![ModuleCapability {
                capability: format!("transport:{name}"),
                execution_host: ExecutionHostKind::NativeRust,
                trusted_required: true,
            }],
            entrypoint: ModuleEntrypoint {
                library_path: Some("xmip_handler_file".to_string()),
                executable_path: None,
                symbol: Some("xmip_create_module".to_string()),
            },
        },
    }
}

fn extension(name: &str) -> ExtensionManifest {
    ExtensionManifest {
        name: name.to_string(),
        version: "0.1.0".to_string(),
        execution_host: ExecutionHostKind::NativeRust,
        required_capabilities: Vec::new(),
        entrypoint: ExtensionEntrypoint {
            path: "extensions/normalize_text".to_string(),
            symbol_or_command: "run".to_string(),
        },
    }
}

fn location(name: &str, start: bool, transport: &str, address: &str) -> ConfiguredLocation {
    ConfiguredLocation {
        name: name.to_string(),
        start,
        transport: transport.to_string(),
        address: address.to_string(),
    }
}

fn node() -> XmipConfigurationDocument {
    XmipConfigurationDocument {
        service: ServiceConfiguration {
            name: "xmip".to_string(),
            cluster_name: "home".to_string(),
            node_name: "node-a".to_string(),
        },
        modules: vec![module("file", true)],
        xmip_processes: vec![XmipProcessConfiguration {
            name: "inbound".to_string(),
            start: true,
            required_modules: vec!["file".to_string()],
            xmip_subprocesses: vec![XmipSubprocessConfiguration {
                name: "normalize".to_string(),
                required_modules: vec!["file".to_string()],
                extensions: vec![extension("normalize-text")],
            }],
            extensions: Vec::new(),
        }],
        receive_locations: vec![location("orders-in", true, "file", "C:/in")],
        send_locations: vec![location("billing-out", false, "file", "C:/out")],
    }
}

#[test]
fn the_tree_is_what_the_document_starts_and_extensions_are_verified_not_loaded() {
    let document = node();
    let (tree, report) = build_execution_tree(document.clone()).expect("valid tree");

    assert!(report.is_valid());
    assert_eq!(tree.service, document.service);
    assert_eq!(tree.modules_to_start, document.modules);
    assert_eq!(tree.xmip_processes_to_start, document.xmip_processes);
    assert_eq!(tree.receive_locations_to_start, document.receive_locations);
    assert!(tree.send_locations_to_start.is_empty(), "start = false");
    assert_eq!(tree.verified_extensions.len(), 1);
    assert!(!tree.verified_extensions[0].loaded_during_startup);
}

#[test]
fn a_location_with_an_empty_transport_is_refused() {
    let mut document = node();
    document.receive_locations[0].transport = String::new();
    let report = build_execution_tree(document).expect_err("refused");

    assert_eq!(
        report.errors,
        ["Receive Location 'orders-in' requires a transport"]
    );
}

#[test]
fn a_missing_module_is_an_error_and_a_stopped_one_a_warning() {
    let modules = vec![module("file", false)];
    let mut errors = Vec::new();
    let mut warnings = Vec::new();

    validate_required_module("ftp", &modules, &mut errors, &mut warnings, "X");
    validate_required_module("file", &modules, &mut errors, &mut warnings, "X");

    assert_eq!(errors, ["X requires missing module 'ftp'"]);
    assert_eq!(
        warnings,
        ["X requires module 'file', but it is configured not to start"]
    );
}

#[test]
fn an_extension_that_leaves_something_out_is_refused() {
    let mut document = node();
    document.xmip_processes[0].xmip_subprocesses[0].extensions[0].version = " ".to_string();
    document.xmip_processes[0].xmip_subprocesses[0].extensions[0]
        .entrypoint
        .path = String::new();
    let report = validate_startup_configuration(&document);

    assert_eq!(
        report.errors,
        [
            "extension 'normalize-text' requires a version",
            "extension 'normalize-text' requires an entrypoint path"
        ]
    );
    assert!(!report.is_valid());
}

#[test]
fn a_sound_document_is_planned_and_an_unsound_one_is_reported() {
    let plan = plan_startup_from_toml(Ok(node())).expect("planned");

    assert_eq!(plan.state, XmipServiceState::ReadyToStartHostServices);
    assert_eq!(plan.phases, startup_phases());
    assert!(plan.validation_report.is_valid());

    let report = plan_startup_from_toml(Err("line 1".to_string())).expect_err("refused");
    assert_eq!(report.errors, ["configuration parse failed: line 1"]);
    assert!(report.warnings.is_empty());

    let mut document = node();
    document.modules[0].name = "  ".to_string();
    let report = plan_startup_from_toml(Ok(document)).expect_err("refused");
    assert!(report
        .errors
        .contains(&"configured module requires a name".to_string()));
}

#[test]
fn startup_reads_the_configuration_first_and_accepts_work_last() {
    let names = startup_sequence();

    assert_eq!(names.len(), 9);
    assert_eq!(names[0], "read-configuration");
    assert_eq!(names[8], "accept-work");
    assert_eq!(StartupPhase::LoadModules.id(), "load-modules");
}
