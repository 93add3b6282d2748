use xmip_core_runtime::registration::{
    launchd_plist, systemd_unit, windows_service_arguments, ServiceDefinition, ServiceManager,
};

fn node_service() -> ServiceDefinition {
    ServiceDefinition::for_node("edge-01", "/opt/xmip/bin/xmip", "/opt/xmip")
}

#[test]
fn a_node_service_is_named_and_described_from_the_node() {
    let definition = node_service();

    assert_eq!(definition.name, "xmip-edge-01");
    assert!(definition.display_name.contains("edge-01"));
    assert!(definition
        .description
        .contains("supervises its Host Services"));
}

#[test]
fn a_host_service_says_what_it_hosts() {
    let hosts = vec![String::from("ftp receive"), String::from("sftp send")];
    let definition = ServiceDefinition::for_host(
        "edge-01",
        "transport",
        &hosts,
        "/opt/xmip/bin/xmip",
        "/opt/xmip",
    );

    assert_eq!(definition.name, "xmip-edge-01-transport");
    assert!(definition.description.contains("ftp receive, sftp send"));
}

#[test]
fn a_host_service_with_nothing_in_it_says_so() {
    let definition = ServiceDefinition::for_host(
        "edge-01",
        "transport",
        &[],
        "/opt/xmip/bin/xmip",
        "/opt/xmip",
    );

    assert!(definition.description.contains("nothing yet"));
}

#[test]
fn the_systemd_unit_waits_for_readiness_rather_than_for_a_process() {
    let unit = systemd_unit(&node_service());

    assert!(unit.contains("Type=notify"));
    assert!(!unit.contains("Type=simple"));
}

#[test]
fn the_systemd_unit_does_not_restart_a_refusal_forever() {
    let unit = systemd_unit(&node_service());

    assert!(unit.contains("Restart=on-failure"));
    assert!(!unit.contains("Restart=always"));
}

#[test]
fn the_systemd_unit_omits_the_user_when_there_is_none() {
    let unit = systemd_unit(&node_service());

    assert!(!unit.contains("User="));
}

#[test]
fn the_systemd_unit_names_the_service_identity_when_there_is_one() {
    let unit = systemd_unit(&node_service().running_as("xmip"));

    assert!(unit.contains("User=xmip"));
}

#[test]
fn the_launchd_plist_lists_the_executable_before_its_arguments() {
    let plist = launchd_plist(&node_service());
    let executable = plist.find("/opt/xmip/bin/xmip").expect("executable");
    let argument = plist.find("--node=edge-01").expect("argument");

    assert!(executable < argument, "argv[0] comes first");
}

#[test]
fn the_launchd_plist_restarts_only_on_failure() {
    let plist = launchd_plist(&node_service());

    assert!(plist.contains("SuccessfulExit"));
    assert!(plist.contains("<false/>"));
}

#[test]
fn the_windows_arguments_keep_the_space_sc_requires() {
    let arguments = windows_service_arguments(&node_service());

    for argument in &arguments {
        if let Some(equals) = argument.find('=') {
            let after = argument[equals + 1..].chars().next();

            assert_eq!(
                after,
                Some(' '),
                "sc.exe needs a space after '=' in {argument}"
            );
        }
    }
}

#[test]
fn the_windows_arguments_pass_the_executable_and_its_arguments_as_one() {
    let arguments = windows_service_arguments(&node_service());
    let bin = arguments
        .iter()
        .find(|a| a.starts_with("binPath="))
        .expect("binPath");

    assert!(bin.contains("/opt/xmip/bin/xmip"));
    assert!(bin.contains("--node=edge-01"));
}

#[test]
fn a_platform_with_no_service_manager_says_so_rather_than_failing() {
    assert!(!ServiceManager::Absent.registers());
    assert!(ServiceManager::Systemd.registers());
}

#[test]
fn the_target_decides_the_service_manager() {
    assert_eq!(
        ServiceManager::for_target("windows"),
        ServiceManager::WindowsScm
    );
    assert_eq!(ServiceManager::for_target("linux"), ServiceManager::Systemd);
    assert_eq!(ServiceManager::for_target("macos"), ServiceManager::Launchd);
    assert_eq!(ServiceManager::for_target("none"), ServiceManager::Absent);
}

#[test]
fn the_windows_arguments_are_these_and_name_an_account_last() {
    let arguments = windows_service_arguments(&node_service().running_as("xmip"));

    assert_eq!(arguments[0], "create");
    assert_eq!(arguments[1], "xmip-edge-01");
    assert_eq!(arguments[2], "binPath= /opt/xmip/bin/xmip service --node=edge-01");
    assert_eq!(arguments[3], "DisplayName= Xmip Service (edge-01)");
    assert_eq!(arguments[4], "start= auto");
    assert_eq!(arguments[5], "obj= xmip");
    assert_eq!(arguments.len(), 6);
}

#[test]
fn the_launchd_plist_names_the_account_when_there_is_one() {
    let plist = launchd_plist(&node_service().running_as("xmip"));

    assert!(plist.contains("\t<key>UserName</key>\n\t<string>xmip</string>\n"));
    assert!(!launchd_plist(&node_service()).contains("UserName"));
}

#[test]
fn the_services_of_a_node_have_names_of_their_own() {
    let one = ServiceDefinition::for_host("n", "a", &[], "x", "w");
    let other = ServiceDefinition::for_host("n", "b", &[], "x", "w");
    let node = ServiceDefinition::for_node("n", "x", "w");

    assert_ne!(one.name, other.name);
    assert_ne!(one.name, node.name);
}
