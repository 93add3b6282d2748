use xmip_core_runtime::abi::{
    ExecutionHostKind, ModuleCapability, ModuleDescriptor, ModuleEntrypoint, ModuleIdentity,
    ModuleManifest, XMIP_ENTRYPOINT,
};
use xmip_core_runtime::capability_registry::CapabilityRegistry;
use xmip_core_runtime::compatibility::{accepts, Expectation};
use xmip_core_runtime::host::{
    verify_dynamic_module, DynamicModuleRequest, HostService, HostServiceState,
};
use xmip_core_runtime::ordered::Ordered;
use xmip_core_runtime::{execution_host_name, host_type_for, HostBitness, ModuleRegistry, NodeRole};

const ABI_VERSION: u32 = 1;

fn capability(name: &str, host: ExecutionHostKind, trusted: bool) -> ModuleCapability {
    ModuleCapability {
        capability: name.to_string(),
        execution_host: host,
        trusted_required: trusted,
    }
}

fn manifest(name: &str, capabilities: Vec<ModuleCapability>) -> ModuleManifest {
    ModuleManifest {
        identity: ModuleIdentity {
            name: name.to_string(),
            version: "0.1.0".to_string(),
        },
        capabilities,
        entrypoint: ModuleEntrypoint {
            library_path: None,
            executable_path: None,
            symbol: None,
        },
    }
}

#[test]
fn the_host_is_what_the_capabilities_are_written_in() {
    assert_eq!(host_type_for(&manifest("m", vec![])), "native-rust-host");
    assert_eq!(
        host_type_for(&manifest(
            "m",
            vec![
                capability("a", ExecutionHostKind::Java, false),
                capability("b", ExecutionHostKind::Java, false),
            ]
        )),
        "java-host"
    );
    assert_eq!(
        host_type_for(&manifest(
            "m",
            vec![
                capability("a", ExecutionHostKind::Python, false),
                capability("b", ExecutionHostKind::Bash, false),
                capability("c", ExecutionHostKind::DotNet, false),
                capability("d", ExecutionHostKind::Python, false),
            ]
        )),
        "mixed-host(bash+dotnet+python)"
    );
}

#[test]
fn different_hosts_have_different_names_but_for_none_and_native_rust() {
    let hosts = [
        ExecutionHostKind::NativeRust,
        ExecutionHostKind::DotNet,
        ExecutionHostKind::Java,
        ExecutionHostKind::Python,
        ExecutionHostKind::CAbi,
        ExecutionHostKind::Go,
        ExecutionHostKind::PowerShell,
        ExecutionHostKind::Bash,
    ];
    let mut names: Vec<String> = Vec::new();
    for set in 0..256_usize {
        let used = hosts
            .iter()
            .enumerate()
            .filter(|(at, _)| set >> at & 1 == 1)
            .map(|(_, host)| capability("a", *host, false))
            .collect();
        let name = host_type_for(&manifest("m", used));
        let first = names.iter().position(|known| *known == name);
        assert_eq!(first, if set == 1 { Some(0) } else { None }, "{name}");
        names.push(name);
    }
}

#[test]
fn every_execution_host_has_its_name() {
    let names = [
        (ExecutionHostKind::NativeRust, "native-rust"),
        (ExecutionHostKind::DotNet, "dotnet"),
        (ExecutionHostKind::Java, "java"),
        (ExecutionHostKind::Python, "python"),
        (ExecutionHostKind::CAbi, "c-abi"),
        (ExecutionHostKind::Go, "go"),
        (ExecutionHostKind::PowerShell, "powershell"),
        (ExecutionHostKind::Bash, "bash"),
    ];
    for (host, name) in names {
        assert_eq!(execution_host_name(host), name);
    }
}

#[test]
fn a_node_plans_one_host_service_for_each_module() {
    let mut registry = ModuleRegistry::default();
    registry.register(manifest(
        "file",
        vec![capability("transport", ExecutionHostKind::NativeRust, true)],
    ));
    registry.register(manifest(
        "web",
        vec![capability("transport", ExecutionHostKind::Go, false)],
    ));
    let node = registry.plan_host_services("home", "node-a");

    assert_eq!(registry.manifests().len(), 2);
    assert_eq!(node.cluster_name, "home");
    assert_eq!(node.node_name, "node-a");
    assert_eq!(node.roles, [NodeRole::Operational, NodeRole::Executing]);
    assert_eq!(node.host_services.len(), 2);
    assert_eq!(node.host_services[0].host_type, "native-rust-host");
    assert!(node.host_services[0].trusted);
    assert_eq!(node.host_services[0].bitness, HostBitness::Native);
    assert_eq!(node.host_services[0].modules, registry.manifests()[..1]);
    assert_eq!(node.host_services[1].host_type, "go-host");
    assert!(!node.host_services[1].trusted);
    assert!(node.host_services[1].verified_extensions.is_empty());
}

#[test]
fn a_capability_keeps_the_module_that_took_it() {
    let mut registry = CapabilityRegistry::default();
    let one = manifest(
        "one",
        vec![
            capability("send", ExecutionHostKind::NativeRust, false),
            capability("archive", ExecutionHostKind::NativeRust, false),
        ],
    );
    let two = manifest(
        "two",
        vec![
            capability("receive", ExecutionHostKind::NativeRust, false),
            capability("send", ExecutionHostKind::NativeRust, false),
            capability("zip", ExecutionHostKind::NativeRust, false),
        ],
    );

    assert_eq!(registry.register_module(&one), Ok(()));
    assert_eq!(
        registry.register_module(&two),
        Err("capability 'send' is already registered".to_string())
    );

    assert_eq!(
        registry.get("send").expect("send").module_identity.name,
        "one"
    );
    assert_eq!(
        registry.get("receive").expect("kept").module_identity.name,
        "two"
    );
    assert!(registry.get("zip").is_none());

    let names: Vec<&str> = registry
        .capabilities()
        .iter()
        .map(|found| found.capability.capability.as_str())
        .collect();
    assert_eq!(names, ["archive", "receive", "send"]);
}

#[test]
fn ordered_names_stand_once_and_in_order() {
    let mut ordered: Ordered<u32> = Ordered::new();
    for (at, name) in ["b", "", "ba", "a", "b", "\u{e5}", "z"].iter().enumerate() {
        ordered.insert(name.to_string(), at as u32);
    }
    let names: Vec<&str> = ordered
        .entries()
        .iter()
        .map(|entry| entry.name.as_str())
        .collect();

    assert_eq!(names, ["", "a", "b", "ba", "z", "\u{e5}"]);
    assert_eq!(ordered.get("b"), Some(&4));
    assert_eq!(ordered.get("c"), None);
}

fn contract_rust() -> ModuleDescriptor {
    ModuleDescriptor {
        abi_version: ABI_VERSION,
        provider: "core".to_string(),
        module: "contract".to_string(),
        standard: "rust".to_string(),
        trait_major: 1,
        trait_minor: 0,
        module_major: 0,
        module_minor: 1,
        module_patch: 0,
    }
}

/// What the boundary's own check says of a descriptor.
fn validated(descriptor: &ModuleDescriptor) -> Result<(), String> {
    if descriptor.abi_version == ABI_VERSION {
        Ok(())
    } else {
        Err(format!(
            "ABI version {} is not spoken here",
            descriptor.abi_version
        ))
    }
}

fn taken(descriptor: &ModuleDescriptor, expected: &Expectation) -> Result<(), String> {
    accepts(
        validated(descriptor),
        descriptor,
        "core-contract-rust",
        expected,
    )
}

fn contract() -> Expectation {
    Expectation::new("contract", 1, 0)
}

#[test]
fn the_capability_that_asked_takes_the_module_that_answers_it() {
    assert_eq!(taken(&contract_rust(), &contract()), Ok(()));
}

#[test]
fn a_foreign_abi_version_is_refused_naming_the_version() {
    let mut foreign = contract_rust();
    foreign.abi_version = ABI_VERSION + 1;

    let refusal = taken(&foreign, &contract()).expect_err("must refuse");

    assert!(refusal.contains("ABI version 2"), "got: {refusal}");
}

#[test]
fn another_capabilitys_module_is_refused_naming_both() {
    let mut transport = contract_rust();
    transport.module = "transport".to_string();

    let refusal = taken(&transport, &contract()).expect_err("must refuse");

    assert!(refusal.contains("descriptor.module"), "got: {refusal}");
    assert!(refusal.contains("'transport' trait"), "got: {refusal}");
    assert!(
        refusal.contains("'contract' is loading it"),
        "got: {refusal}"
    );
}

#[test]
fn a_major_generation_apart_is_refused_naming_trait_major() {
    let mut older = contract_rust();
    older.trait_major = 2;

    let refusal = taken(&older, &contract()).expect_err("must refuse");

    assert!(refusal.contains("trait_major 2"), "got: {refusal}");
    assert!(refusal.contains("speaks 1"), "got: {refusal}");
}

#[test]
fn a_newer_minor_is_refused_and_an_older_one_is_taken() {
    let mut newer = contract_rust();
    newer.trait_minor = 3;

    let refusal = taken(&newer, &Expectation::new("contract", 1, 2))
        .expect_err("the host cannot drive a table it does not know");

    assert!(refusal.contains("trait_minor 3"), "got: {refusal}");
    assert!(refusal.contains("speaks 2"), "got: {refusal}");

    let mut older = contract_rust();
    older.trait_minor = 1;

    assert_eq!(taken(&older, &Expectation::new("contract", 1, 4)), Ok(()));
}

fn request(symbol: Option<&str>) -> DynamicModuleRequest {
    let mut asked = manifest(
        "xmip-core-transport-file",
        vec![capability(
            "transport",
            ExecutionHostKind::NativeRust,
            false,
        )],
    );
    asked.entrypoint.library_path = Some("libxmip_core_transport_file.so".to_string());
    asked.entrypoint.symbol = symbol.map(str::to_string);
    let mut descriptor = contract_rust();
    descriptor.module = "transport".to_string();
    descriptor.standard = "file".to_string();
    DynamicModuleRequest {
        manifest: asked,
        resolved_library_path: "/opt/xmip/libxmip_core_transport_file.so".to_string(),
        descriptor,
    }
}

#[test]
fn an_unnamed_symbol_defaults_to_the_headers_entrypoint() {
    let asked = request(None);
    let verified = verify_dynamic_module(validated(&asked.descriptor), &asked).expect("verifies");

    assert_eq!(verified.entrypoint_symbol, XMIP_ENTRYPOINT);
    assert_eq!(verified.module_name, "xmip-core-transport-file");
}

#[test]
fn a_declared_symbol_is_kept() {
    let asked = request(Some("acme_create_v1"));
    let verified = verify_dynamic_module(validated(&asked.descriptor), &asked).expect("verifies");

    assert_eq!(verified.entrypoint_symbol, "acme_create_v1");
}

#[test]
fn a_foreign_abi_version_is_refused_before_any_load() {
    let mut foreign = request(None);
    foreign.descriptor.abi_version = ABI_VERSION + 1;

    verify_dynamic_module(validated(&foreign.descriptor), &foreign)
        .expect_err("the host must refuse it");
}

#[test]
fn a_blank_path_or_symbol_is_refused_in_words() {
    let mut asked = request(Some(" \u{a0}"));
    assert_eq!(
        verify_dynamic_module(Ok(()), &asked),
        Err("dynamic module request requires an exported symbol".to_string())
    );
    asked.resolved_library_path = "\t".to_string();
    assert_eq!(
        verify_dynamic_module(Ok(()), &asked),
        Err("dynamic module request requires a resolved library path".to_string())
    );
}

#[test]
fn a_host_service_is_planned_started_and_stopped() {
    let mut service = HostService::from_manifest(manifest("file", vec![]), true);

    assert_eq!(service.plan.host_type, "file-host");
    assert!(service.plan.trusted);
    assert_eq!(service.state, HostServiceState::Planned);
    service.start();
    assert_eq!(service.state, HostServiceState::Running);
    service.stop();
    assert_eq!(service.state, HostServiceState::Stopped);
}
