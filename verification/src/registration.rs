//! Registering the Xmip Service and the Host Services with the platform.
//!
//! The Xmip Service is the only thing the operating system starts, and the
//! Host Services it supervises are registered services rather than child
//! processes: an operator stops one by name, and the service list describes
//! the node. The name and description are generated, never authored.
//!
//! This module turns a [`ServiceDefinition`] into exactly what each
//! platform's service manager needs: a systemd unit, a launchd property list,
//! or the arguments for the Windows service control manager. Applying it is a
//! privileged act and is not here. A device without a service manager is
//! [`ServiceManager::Absent`].

use vstd::prelude::*;
use vstd::string::*;

use crate::text;

verus! {

/// What the operating system is told about one service.
#[derive(Clone, Debug, PartialEq, Eq)]
pub struct ServiceDefinition {
    /// The name the service is registered, started and stopped by.
    pub name: String,
    /// What an operator sees in the service list.
    pub display_name: String,
    /// One line saying what this service does, generated from what it hosts.
    pub description: String,
    /// The Xmip binary this service runs.
    pub executable: String,
    /// Arguments that select which part of the node this service is.
    pub arguments: Vec<String>,
    /// The account it runs as. `None` means the platform default.
    pub service_identity: Option<String>,
    /// The node's installation directory.
    pub working_directory: String,
}

/// The name a node's Xmip Service is registered under.
pub open spec fn node_service_name(node: Seq<char>) -> Seq<char> {
    "xmip-"@ + node
}

/// The name a Host Service of a node is registered under.
pub open spec fn host_service_name(node: Seq<char>, host_type: Seq<char>) -> Seq<char> {
    "xmip-"@ + node + "-"@ + host_type
}

/// What a Host Service holds, in words.
pub open spec fn hosted(hosts: Seq<Seq<char>>) -> Seq<char> {
    if hosts.len() == 0 {
        "nothing yet"@
    } else {
        text::joined(hosts, ", "@)
    }
}

impl ServiceDefinition {
    /// The Xmip Service for a node: the master, and the only thing the
    /// operating system starts.
    #[must_use]
    pub fn for_node(node: &str, executable: &str, working_directory: &str) -> (r: Self)
        ensures
            r.name@ == node_service_name(node@),
            r.display_name@ == "Xmip Service ("@ + node@ + ")"@,
            r.description@ == "Reads the configuration for node "@ + node@
                + ", builds and validates the execution tree, and supervises its Host Services. Not in the message path."@,
            r.executable@ == executable@,
            text::read(r.arguments@) == seq!["service"@, "--node="@ + node@],
            r.service_identity is None,
            r.working_directory@ == working_directory@,
    {
        let arguments = vec!["service".to_string(), "--node=".to_string().concat(node)];
        assert(text::read(arguments@) =~= seq!["service"@, "--node="@ + node@]);
        ServiceDefinition {
            name: "xmip-".to_string().concat(node),
            display_name: "Xmip Service (".to_string().concat(node).concat(")"),
            description: "Reads the configuration for node ".to_string().concat(node).concat(
                ", builds and validates the execution tree, and supervises its Host Services. Not in the message path.",
            ),
            executable: executable.to_string(),
            arguments,
            service_identity: None,
            working_directory: working_directory.to_string(),
        }
    }

    /// A Host Service, named for the work it holds.
    ///
    /// The description lists what it hosts, because that is the question an
    /// operator has when they find it in the service list and do not
    /// recognise the name.
    #[must_use]
    pub fn for_host(
        node: &str,
        host_type: &str,
        hosts: &[String],
        executable: &str,
        working_directory: &str,
    ) -> (r: Self)
        ensures
            r.name@ == host_service_name(node@, host_type@),
            r.display_name@ == "Xmip Host Service ("@ + node@ + "/"@ + host_type@ + ")"@,
            r.description@ == "Hosts "@ + hosted(text::read(hosts@)) + " for node "@ + node@ + "."@,
            r.executable@ == executable@,
            text::read(r.arguments@) == seq![
                "host"@,
                "--node="@ + node@,
                "--host="@ + host_type@,
            ],
            r.service_identity is None,
            r.working_directory@ == working_directory@,
    {
        let what = if hosts.len() == 0 {
            "nothing yet".to_string()
        } else {
            text::join(hosts, ", ")
        };
        let arguments = vec![
            "host".to_string(),
            "--node=".to_string().concat(node),
            "--host=".to_string().concat(host_type),
        ];
        assert(text::read(arguments@) =~= seq![
            "host"@,
            "--node="@ + node@,
            "--host="@ + host_type@,
        ]);
        ServiceDefinition {
            name: "xmip-".to_string().concat(node).concat("-").concat(host_type),
            display_name: "Xmip Host Service (".to_string().concat(node).concat("/").concat(
                host_type,
            ).concat(")"),
            description: "Hosts ".to_string().concat(what.as_str()).concat(" for node ").concat(
                node,
            ).concat("."),
            executable: executable.to_string(),
            arguments,
            service_identity: None,
            working_directory: working_directory.to_string(),
        }
    }

    /// The same definition, running as a named account rather than the
    /// platform default.
    #[must_use]
    pub fn running_as(self, identity: &str) -> (r: Self)
        ensures
            r.service_identity is Some,
            r.service_identity->0@ == identity@,
            r == (ServiceDefinition { service_identity: r.service_identity, ..self }),
    {
        ServiceDefinition { service_identity: Some(identity.to_string()), ..self }
    }
}

/// What manages services on a platform.
///
/// `Absent` is a real answer, not a failure: a device runs the runtime as its
/// firmware and has nothing to register with.
#[derive(Clone, Copy, Debug, PartialEq, Eq, Structural)]
pub enum ServiceManager {
    WindowsScm,
    Systemd,
    Launchd,
    Absent,
}

impl ServiceManager {
    /// What the target platform uses, by the operating system the build is
    /// for: known when the build is made rather than probed, because a
    /// bare-metal target has no service manager to probe for.
    #[must_use]
    pub fn for_target(target_os: &str) -> (r: Self)
        ensures
            r == (if target_os@ == "windows"@ {
                ServiceManager::WindowsScm
            } else if target_os@ == "linux"@ {
                ServiceManager::Systemd
            } else if target_os@ == "macos"@ {
                ServiceManager::Launchd
            } else {
                ServiceManager::Absent
            }),
    {
        if text::same(target_os, "windows") {
            ServiceManager::WindowsScm
        } else if text::same(target_os, "linux") {
            ServiceManager::Systemd
        } else if text::same(target_os, "macos") {
            ServiceManager::Launchd
        } else {
            ServiceManager::Absent
        }
    }

    /// Whether registering means anything here.
    #[must_use]
    pub fn registers(self) -> (r: bool)
        ensures
            r == (self != ServiceManager::Absent),
    {
        !matches!(self, ServiceManager::Absent)
    }
}

/// The account a systemd unit names, or nothing.
pub open spec fn unit_user(identity: Option<String>) -> Seq<char> {
    match identity {
        Some(user) => "User="@ + user@ + "\n"@,
        None => Seq::empty(),
    }
}

/// A unit down to where the account goes.
pub open spec fn unit_opening(definition: ServiceDefinition) -> Seq<char> {
    "[Unit]\n"@ + "Description="@ + definition.description@ + "\n"@
        + "After=network-online.target\n"@ + "Wants=network-online.target\n"@ + "\n"@
        + "[Service]\n"@ + "Type=notify\n"@ + "ExecStart="@ + definition.executable@ + " "@
        + text::joined(text::read(definition.arguments@), " "@) + "\n"@ + "WorkingDirectory="@
        + definition.working_directory@ + "\n"@
}

/// A unit from where the account goes.
pub open spec fn unit_closing() -> Seq<char> {
    "Restart=on-failure\n"@ + "RestartSec=5\n"@ + "\n"@ + "[Install]\n"@
        + "WantedBy=multi-user.target\n"@
}

/// The systemd unit of a definition.
pub open spec fn unit_text(definition: ServiceDefinition) -> Seq<char> {
    unit_opening(definition) + unit_user(definition.service_identity) + unit_closing()
}

/// A systemd unit for this definition.
///
/// `Type=notify`, because the service is up when it can accept work and not
/// when its process exists. `Restart=on-failure` rather than `always`,
/// because a validation failure is not something restarting fixes.
#[must_use]
pub fn systemd_unit(definition: &ServiceDefinition) -> (r: String)
    ensures
        r@ == unit_text(*definition),
{
    let arguments = text::join(definition.arguments.as_slice(), " ");
    let opening = "[Unit]\n".to_string().concat("Description=").concat(
        definition.description.as_str(),
    ).concat("\n").concat("After=network-online.target\n").concat(
        "Wants=network-online.target\n",
    ).concat("\n").concat("[Service]\n").concat("Type=notify\n").concat("ExecStart=").concat(
        definition.executable.as_str(),
    ).concat(" ").concat(arguments.as_str()).concat("\n").concat("WorkingDirectory=").concat(
        definition.working_directory.as_str(),
    ).concat("\n");
    let user = match &definition.service_identity {
        Some(user) => "User=".to_string().concat(user.as_str()).concat("\n"),
        None => String::new(),
    };
    let closing = "Restart=on-failure\n".to_string().concat("RestartSec=5\n").concat("\n").concat(
        "[Install]\n",
    ).concat("WantedBy=multi-user.target\n");
    opening.concat(user.as_str()).concat(closing.as_str())
}

/// One string of a property list's array.
pub open spec fn plist_string(said: Seq<char>) -> Seq<char> {
    "\t\t<string>"@ + said + "</string>\n"@
}

/// The program and its arguments, the program first.
pub open spec fn plist_arguments(definition: ServiceDefinition) -> Seq<char> {
    plist_string(definition.executable@) + text::gathered(
        definition.arguments@,
        |argument: String| plist_string(argument@),
    )
}

/// The account a property list names, or nothing.
pub open spec fn plist_user(identity: Option<String>) -> Seq<char> {
    match identity {
        Some(user) => "\t<key>UserName</key>\n\t<string>"@ + user@ + "</string>\n"@,
        None => Seq::empty(),
    }
}

/// A property list down to where the account goes.
pub open spec fn plist_opening(definition: ServiceDefinition) -> Seq<char> {
    "<?xml version=\"1.0\" encoding=\"UTF-8\"?>\n<plist version=\"1.0\">\n<dict>\n"@
        + "\t<key>Label</key>\n\t<string>"@ + definition.name@ + "</string>\n"@
        + "\t<key>ProgramArguments</key>\n\t<array>\n"@ + plist_arguments(definition)
        + "\t</array>\n"@ + "\t<key>WorkingDirectory</key>\n\t<string>"@
        + definition.working_directory@ + "</string>\n"@
}

/// A property list from where the account goes.
pub open spec fn plist_closing() -> Seq<char> {
    "\t<key>RunAtLoad</key>\n\t<true/>\n"@
        + "\t<key>KeepAlive</key>\n\t<dict>\n\t\t<key>SuccessfulExit</key>\n\t\t<false/>\n\t</dict>\n"@
        + "</dict>\n</plist>\n"@
}

/// The launchd property list of a definition.
pub open spec fn plist_text(definition: ServiceDefinition) -> Seq<char> {
    plist_opening(definition) + plist_user(definition.service_identity) + plist_closing()
}

/// A launchd property list for this definition.
///
/// `RunAtLoad` with `KeepAlive` on `SuccessfulExit=false` is launchd's
/// spelling of `Restart=on-failure`, for the same reason.
#[must_use]
pub fn launchd_plist(definition: &ServiceDefinition) -> (r: String)
    ensures
        r@ == plist_text(*definition),
{
    let mut arguments = "\t\t<string>".to_string().concat(definition.executable.as_str()).concat(
        "</string>\n",
    );
    let ghost said = |argument: String| plist_string(argument@);
    let mut at: usize = 0;
    while at < definition.arguments.len()
        invariant
            at <= definition.arguments@.len(),
            said == (|argument: String| plist_string(argument@)),
            arguments@ =~= plist_string(definition.executable@) + text::gathered(
                definition.arguments@.take(at as int),
                said,
            ),
        decreases definition.arguments@.len() - at,
    {
        let line = "\t\t<string>".to_string().concat(definition.arguments[at].as_str()).concat(
            "</string>\n",
        );
        arguments.append(line.as_str());
        proof {
            text::lemma_gathered_step(definition.arguments@, at as int, said);
        }
        at += 1;
    }
    assert(definition.arguments@.take(at as int) =~= definition.arguments@);

    let opening =
        "<?xml version=\"1.0\" encoding=\"UTF-8\"?>\n<plist version=\"1.0\">\n<dict>\n".to_string().concat(
        "\t<key>Label</key>\n\t<string>",
    ).concat(definition.name.as_str()).concat("</string>\n").concat(
        "\t<key>ProgramArguments</key>\n\t<array>\n",
    ).concat(arguments.as_str()).concat("\t</array>\n").concat(
        "\t<key>WorkingDirectory</key>\n\t<string>",
    ).concat(definition.working_directory.as_str()).concat("</string>\n");
    let user = match &definition.service_identity {
        Some(user) => "\t<key>UserName</key>\n\t<string>".to_string().concat(user.as_str()).concat(
            "</string>\n",
        ),
        None => String::new(),
    };
    let closing = "\t<key>RunAtLoad</key>\n\t<true/>\n".to_string().concat(
        "\t<key>KeepAlive</key>\n\t<dict>\n\t\t<key>SuccessfulExit</key>\n\t\t<false/>\n\t</dict>\n",
    ).concat("</dict>\n</plist>\n");
    opening.concat(user.as_str()).concat(closing.as_str())
}

/// The executable and its arguments as the one string Windows wants them as.
pub open spec fn command_line(definition: ServiceDefinition) -> Seq<char> {
    definition.executable@ + text::gathered(
        definition.arguments@,
        |argument: String| " "@ + argument@,
    )
}

/// The `sc.exe create` arguments of a definition.
pub open spec fn windows_arguments(definition: ServiceDefinition) -> Seq<Seq<char>> {
    seq![
        "create"@,
        definition.name@,
        "binPath= "@ + command_line(definition),
        "DisplayName= "@ + definition.display_name@,
        "start= auto"@,
    ] + match definition.service_identity {
        Some(user) => seq!["obj= "@ + user@],
        None => Seq::empty(),
    }
}

/// The `sc.exe create` arguments for this definition.
///
/// Returned as arguments rather than as a command line, so a caller passes
/// them to the process API without quoting anything. `binPath=` is the one
/// place Windows requires the executable and its arguments to be one string,
/// and the space after each `=` is required by `sc.exe`.
#[must_use]
pub fn windows_service_arguments(definition: &ServiceDefinition) -> (r: Vec<String>)
    ensures
        text::read(r@) == windows_arguments(*definition),
{
    let mut binary = definition.executable.clone();
    let ghost said = |argument: String| " "@ + argument@;
    let mut at: usize = 0;
    while at < definition.arguments.len()
        invariant
            at <= definition.arguments@.len(),
            said == (|argument: String| " "@ + argument@),
            binary@ =~= definition.executable@ + text::gathered(
                definition.arguments@.take(at as int),
                said,
            ),
        decreases definition.arguments@.len() - at,
    {
        binary.append(" ");
        binary.append(definition.arguments[at].as_str());
        proof {
            text::lemma_gathered_step(definition.arguments@, at as int, said);
        }
        at += 1;
    }
    assert(definition.arguments@.take(at as int) =~= definition.arguments@);

    let mut arguments = vec![
        "create".to_string(),
        definition.name.clone(),
        "binPath= ".to_string().concat(binary.as_str()),
        "DisplayName= ".to_string().concat(definition.display_name.as_str()),
        "start= auto".to_string(),
    ];
    if let Some(user) = &definition.service_identity {
        arguments.push("obj= ".to_string().concat(user.as_str()));
    }
    assert(text::read(arguments@) =~= windows_arguments(*definition));
    arguments
}

/// The services of a node are told apart by name: no two kinds of Host
/// Service share one, and none has the Xmip Service's.
pub proof fn law_services_of_a_node_have_their_own_names(
    node: Seq<char>,
    one: Seq<char>,
    other: Seq<char>,
)
    ensures
        host_service_name(node, one) == host_service_name(node, other) ==> one == other,
        host_service_name(node, one) != node_service_name(node),
{
    let opening = "xmip-"@ + node + "-"@;
    if host_service_name(node, one) == host_service_name(node, other) {
        assert(one =~= (opening + one).skip(opening.len() as int));
        assert(other =~= (opening + other).skip(opening.len() as int));
    }
    reveal_strlit("-");
    assert(host_service_name(node, one).len() > node_service_name(node).len());
}

/// Whatever a unit describes, systemd waits for the service to say it is
/// ready, and restarts it only on failure.
pub proof fn law_a_unit_waits_for_readiness_and_restarts_on_failure(definition: ServiceDefinition)
    ensures
        text::holds(unit_text(definition), "Type=notify\n"@),
        text::holds(unit_text(definition), "Restart=on-failure\n"@),
{
    let head = "[Unit]\n"@ + "Description="@ + definition.description@ + "\n"@
        + "After=network-online.target\n"@ + "Wants=network-online.target\n"@ + "\n"@
        + "[Service]\n"@;
    let tail = "ExecStart="@ + definition.executable@ + " "@ + text::joined(
        text::read(definition.arguments@),
        " "@,
    ) + "\n"@ + "WorkingDirectory="@ + definition.working_directory@ + "\n"@;
    let user = unit_user(definition.service_identity);
    let rest = "RestartSec=5\n"@ + "\n"@ + "[Install]\n"@ + "WantedBy=multi-user.target\n"@;
    assert(unit_text(definition) =~= head + "Type=notify\n"@ + (tail + user + unit_closing()));
    text::lemma_holds(head, "Type=notify\n"@, tail + user + unit_closing());
    let opening = unit_opening(definition) + user;
    assert(unit_text(definition) =~= opening + "Restart=on-failure\n"@ + rest);
    text::lemma_holds(opening, "Restart=on-failure\n"@, rest);
}

/// Whatever a property list describes, launchd starts the service when it is
/// loaded and again only when it did not exit successfully, and the program
/// it runs comes before the program's arguments.
pub proof fn law_a_plist_restarts_on_failure_and_names_the_program_first(
    definition: ServiceDefinition,
)
    ensures
        text::holds(plist_text(definition), "\t<key>RunAtLoad</key>\n\t<true/>\n"@),
        text::holds(
            plist_text(definition),
            "\t<key>KeepAlive</key>\n\t<dict>\n\t\t<key>SuccessfulExit</key>\n\t\t<false/>\n\t</dict>\n"@,
        ),
        text::holds(
            plist_text(definition),
            plist_string(definition.executable@) + text::gathered(
                definition.arguments@,
                |argument: String| plist_string(argument@),
            ),
        ),
{
    let run = "\t<key>RunAtLoad</key>\n\t<true/>\n"@;
    let keep =
        "\t<key>KeepAlive</key>\n\t<dict>\n\t\t<key>SuccessfulExit</key>\n\t\t<false/>\n\t</dict>\n"@;
    let end = "</dict>\n</plist>\n"@;
    let user = plist_user(definition.service_identity);
    let opening = plist_opening(definition) + user;
    assert(plist_text(definition) =~= opening + run + (keep + end));
    text::lemma_holds(opening, run, keep + end);
    assert(plist_text(definition) =~= (opening + run) + keep + end);
    text::lemma_holds(opening + run, keep, end);
    let head =
        "<?xml version=\"1.0\" encoding=\"UTF-8\"?>\n<plist version=\"1.0\">\n<dict>\n"@
        + "\t<key>Label</key>\n\t<string>"@ + definition.name@ + "</string>\n"@
        + "\t<key>ProgramArguments</key>\n\t<array>\n"@;
    let tail = "\t</array>\n"@ + "\t<key>WorkingDirectory</key>\n\t<string>"@
        + definition.working_directory@ + "</string>\n"@ + user + plist_closing();
    assert(plist_text(definition) =~= head + plist_arguments(definition) + tail);
    text::lemma_holds(head, plist_arguments(definition), tail);
}

/// Naming an account adds its one line or argument on every platform and
/// changes nothing else; without one there is none.
pub proof fn law_an_account_is_one_line(definition: ServiceDefinition, user: String)
    requires
        definition.service_identity is None,
    ensures
        ({
            let named = ServiceDefinition { service_identity: Some(user), ..definition };
            &&& unit_text(definition) == unit_opening(definition) + unit_closing()
            &&& unit_text(named) == unit_opening(definition) + ("User="@ + user@ + "\n"@)
                + unit_closing()
            &&& plist_text(definition) == plist_opening(definition) + plist_closing()
            &&& plist_text(named) == plist_opening(definition) + (
            "\t<key>UserName</key>\n\t<string>"@ + user@ + "</string>\n"@) + plist_closing()
            &&& windows_arguments(named) == windows_arguments(definition).push("obj= "@ + user@)
        }),
{
    let named = ServiceDefinition { service_identity: Some(user), ..definition };
    assert(unit_text(definition) =~= unit_opening(definition) + unit_closing());
    assert(unit_opening(named) == unit_opening(definition));
    assert(plist_text(definition) =~= plist_opening(definition) + plist_closing());
    assert(plist_opening(named) == plist_opening(definition));
    assert(windows_arguments(named) =~= windows_arguments(definition).push("obj= "@ + user@));
}

/// The first `=` of `argument`, if it has one, is followed by a space.
pub open spec fn spaced(argument: Seq<char>) -> bool {
    forall|at: int|
        0 <= at < argument.len() && #[trigger] argument[at] == '=' && (forall|i: int|
            0 <= i < at ==> argument[i] != '=') ==> at + 1 < argument.len() && argument[at + 1]
            == ' '
}

/// Every `sc.exe` argument is `key= value`, with the space `sc.exe` requires.
/// The service's own name is the one argument that is not a pair, and is
/// taken as it was given.
pub proof fn law_windows_arguments_keep_the_space(definition: ServiceDefinition, at: int)
    requires
        0 <= at < windows_arguments(definition).len(),
        at != 1,
    ensures
        spaced(windows_arguments(definition)[at]),
{
    reveal_strlit("create");
    reveal_strlit("binPath= ");
    reveal_strlit("DisplayName= ");
    reveal_strlit("start= auto");
    reveal_strlit("obj= ");
    let argument = windows_arguments(definition)[at];
    if at == 0 {
        assert(argument == "create"@);
    } else if at == 2 {
        assert(argument[7] == '=' && argument[8] == ' ');
    } else if at == 3 {
        assert(argument[11] == '=' && argument[12] == ' ');
    } else if at == 4 {
        assert(argument[5] == '=' && argument[6] == ' ');
    } else {
        assert(argument[3] == '=' && argument[4] == ' ');
    }
}

/// Every argument in order, each after a space.
pub open spec fn spoken(arguments: Seq<String>) -> Seq<char>
    decreases arguments.len(),
{
    if arguments.len() == 0 {
        Seq::empty()
    } else {
        " "@ + arguments[0]@ + spoken(arguments.drop_first())
    }
}

/// Lines one under the other, each with its end.
pub open spec fn in_lines(lines: Seq<Seq<char>>) -> Seq<char>
    decreases lines.len(),
{
    if lines.len() == 0 {
        Seq::empty()
    } else {
        lines[0] + "\n"@ + in_lines(lines.drop_first())
    }
}

/// `line` begins with `key`.
pub open spec fn begins_with(line: Seq<char>, key: Seq<char>) -> bool {
    key.len() <= line.len() && line.take(key.len() as int) == key
}

/// `unit` is made of lines of which one, and no other, sets `key`, to `value`.
pub open spec fn sets_once(unit: Seq<char>, key: Seq<char>, value: Seq<char>) -> bool {
    exists|lines: Seq<Seq<char>>, at: int|
        {
            &&& #[trigger] in_lines(lines) == unit
            &&& 0 <= at < lines.len()
            &&& #[trigger] lines[at] == key + value
            &&& forall|i: int|
                0 <= i < lines.len() && begins_with(#[trigger] lines[i], key) ==> i == at
        }
}

/// Every unit has one line that starts a program: the definition's executable,
/// and after it every argument of the definition, in order, each after a space.
/// One line says where the program works, and one what the service is.
pub proof fn law_a_unit_starts_the_program_with_its_arguments(
    definition: ServiceDefinition,
    unit: String,
)
    requires
        call_ensures(systemd_unit, (&definition,), unit),
    ensures
        definition.arguments@.len() > 0 ==> sets_once(
            unit@,
            "ExecStart="@,
            definition.executable@ + spoken(definition.arguments@),
        ),
        definition.arguments@.len() == 0 ==> sets_once(
            unit@,
            "ExecStart="@,
            definition.executable@ + " "@,
        ),
        sets_once(unit@, "WorkingDirectory="@, definition.working_directory@),
        sets_once(unit@, "Description="@, definition.description@),
        definition.service_identity matches Some(user) ==> sets_once(unit@, "User="@, user@),
{
    let lines = unit_lines(definition);
    lemma_unit_lines(definition);
    lemma_spoken(definition.arguments@);
    reveal_strlit("[Unit]");
    reveal_strlit("Description=");
    reveal_strlit("After=network-online.target");
    reveal_strlit("Wants=network-online.target");
    reveal_strlit("");
    reveal_strlit("[Service]");
    reveal_strlit("Type=notify");
    reveal_strlit("ExecStart=");
    reveal_strlit("WorkingDirectory=");
    reveal_strlit("User=");
    reveal_strlit("Restart=on-failure");
    reveal_strlit("RestartSec=5");
    reveal_strlit("[Install]");
    reveal_strlit("WantedBy=multi-user.target");
    let run = definition.executable@ + " "@ + text::joined(text::read(definition.arguments@), " "@);
    if definition.arguments@.len() > 0 {
        assert(run =~= definition.executable@ + spoken(definition.arguments@));
    } else {
        assert(run =~= definition.executable@ + " "@);
    }
    assert(lines[1] == "Description="@ + definition.description@);
    assert(lines[7] == "ExecStart="@ + run);
    assert(lines[8] == "WorkingDirectory="@ + definition.working_directory@);
    assert forall|i: int|
        0 <= i < lines.len() && i != 7 implies !begins_with(#[trigger] lines[i], "ExecStart="@) by {
        assert(lines[i].len() > 0 ==> lines[i][0] != 'E');
        assert(begins_with(lines[i], "ExecStart="@) ==> lines[i].take(10)[0] == 'E');
    }
    assert forall|i: int|
        0 <= i < lines.len() && i != 1 implies !begins_with(
            #[trigger] lines[i],
            "Description="@,
        ) by {
        assert(lines[i].len() > 0 ==> lines[i][0] != 'D');
        assert(begins_with(lines[i], "Description="@) ==> lines[i].take(12)[0] == 'D');
    }
    assert forall|i: int|
        0 <= i < lines.len() && i != 8 implies !begins_with(
            #[trigger] lines[i],
            "WorkingDirectory="@,
        ) by {
        assert(lines[i].len() > 1 ==> lines[i][0] != 'W' || lines[i][1] != 'o');
        if begins_with(lines[i], "WorkingDirectory="@) {
            assert(lines[i].take(17)[0] == 'W' && lines[i].take(17)[1] == 'o');
        }
    }
    assert(sets_once(unit@, "ExecStart="@, run));
    assert(sets_once(unit@, "Description="@, definition.description@));
    assert(sets_once(unit@, "WorkingDirectory="@, definition.working_directory@));
    if let Some(user) = definition.service_identity {
        assert(lines[9] == "User="@ + user@);
        assert forall|i: int|
            0 <= i < lines.len() && i != 9 implies !begins_with(#[trigger] lines[i], "User="@) by {
            assert(lines[i].len() > 0 ==> lines[i][0] != 'U');
            assert(begins_with(lines[i], "User="@) ==> lines[i].take(5)[0] == 'U');
        }
        assert(sets_once(unit@, "User="@, user@));
    }
}

/// A unit line by line.
spec fn unit_lines(definition: ServiceDefinition) -> Seq<Seq<char>> {
    let run = definition.executable@ + " "@ + text::joined(text::read(definition.arguments@), " "@);
    seq![
        "[Unit]"@,
        "Description="@ + definition.description@,
        "After=network-online.target"@,
        "Wants=network-online.target"@,
        ""@,
        "[Service]"@,
        "Type=notify"@,
        "ExecStart="@ + run,
        "WorkingDirectory="@ + definition.working_directory@,
    ] + (match definition.service_identity {
        Some(user) => seq!["User="@ + user@],
        None => Seq::empty(),
    }) + seq![
        "Restart=on-failure"@,
        "RestartSec=5"@,
        ""@,
        "[Install]"@,
        "WantedBy=multi-user.target"@,
    ]
}

proof fn lemma_unit_lines(definition: ServiceDefinition)
    ensures
        in_lines(unit_lines(definition)) == unit_text(definition),
{
    reveal_strlit("\n");
    reveal_strlit("");
    reveal_strlit("[Unit]");
    reveal_strlit("[Unit]\n");
    reveal_strlit("After=network-online.target");
    reveal_strlit("After=network-online.target\n");
    reveal_strlit("Wants=network-online.target");
    reveal_strlit("Wants=network-online.target\n");
    reveal_strlit("[Service]");
    reveal_strlit("[Service]\n");
    reveal_strlit("Type=notify");
    reveal_strlit("Type=notify\n");
    reveal_strlit("Restart=on-failure");
    reveal_strlit("Restart=on-failure\n");
    reveal_strlit("RestartSec=5");
    reveal_strlit("RestartSec=5\n");
    reveal_strlit("[Install]");
    reveal_strlit("[Install]\n");
    reveal_strlit("WantedBy=multi-user.target");
    reveal_strlit("WantedBy=multi-user.target\n");
    let d = definition;
    let arguments = text::joined(text::read(d.arguments@), " "@);
    let run = d.executable@ + " "@ + arguments;
    let l1 = seq!["[Unit]"@];
    let t1 = "[Unit]\n"@;
    assert(t1 =~= "[Unit]"@ + "\n"@);
    lemma_one_line(Seq::empty(), "[Unit]"@);
    assert(Seq::<Seq<char>>::empty().push("[Unit]"@) =~= l1);
    assert(in_lines(l1) =~= t1);
    let l2 = l1.push("Description="@ + d.description@);
    let t2 = t1 + "Description="@ + d.description@ + "\n"@;
    lemma_one_line(l1, "Description="@ + d.description@);
    assert(in_lines(l2) =~= t2);
    let l3 = l2.push("After=network-online.target"@);
    let t3 = t2 + "After=network-online.target\n"@;
    lemma_one_line(l2, "After=network-online.target"@);
    assert("After=network-online.target\n"@ =~= "After=network-online.target"@ + "\n"@);
    assert(in_lines(l3) =~= t3);
    let l4 = l3.push("Wants=network-online.target"@);
    let t4 = t3 + "Wants=network-online.target\n"@;
    lemma_one_line(l3, "Wants=network-online.target"@);
    assert("Wants=network-online.target\n"@ =~= "Wants=network-online.target"@ + "\n"@);
    assert(in_lines(l4) =~= t4);
    let l5 = l4.push(""@);
    let t5 = t4 + "\n"@;
    lemma_one_line(l4, ""@);
    assert(""@ =~= Seq::<char>::empty());
    assert(in_lines(l5) =~= t5);
    let l6 = l5.push("[Service]"@);
    let t6 = t5 + "[Service]\n"@;
    lemma_one_line(l5, "[Service]"@);
    assert("[Service]\n"@ =~= "[Service]"@ + "\n"@);
    assert(in_lines(l6) =~= t6);
    let l7 = l6.push("Type=notify"@);
    let t7 = t6 + "Type=notify\n"@;
    lemma_one_line(l6, "Type=notify"@);
    assert("Type=notify\n"@ =~= "Type=notify"@ + "\n"@);
    assert(in_lines(l7) =~= t7);
    let l8 = l7.push("ExecStart="@ + run);
    let t8 = t7 + "ExecStart="@ + d.executable@ + " "@ + arguments + "\n"@;
    lemma_one_line(l7, "ExecStart="@ + run);
    assert(in_lines(l8) =~= t8);
    let l9 = l8.push("WorkingDirectory="@ + d.working_directory@);
    let t9 = t8 + "WorkingDirectory="@ + d.working_directory@ + "\n"@;
    lemma_one_line(l8, "WorkingDirectory="@ + d.working_directory@);
    assert(in_lines(l9) =~= t9);
    assert(t9 == unit_opening(d));
    let l10 = match d.service_identity {
        Some(user) => l9.push("User="@ + user@),
        None => l9,
    };
    let t10 = t9 + unit_user(d.service_identity);
    if let Some(user) = d.service_identity {
        lemma_one_line(l9, "User="@ + user@);
    }
    assert(in_lines(l10) =~= t10);
    lemma_one_line(l10, "Restart=on-failure"@);
    let l11 = l10.push("Restart=on-failure"@);
    lemma_one_line(l11, "RestartSec=5"@);
    let l12 = l11.push("RestartSec=5"@);
    lemma_one_line(l12, ""@);
    let l13 = l12.push(""@);
    lemma_one_line(l13, "[Install]"@);
    let l14 = l13.push("[Install]"@);
    lemma_one_line(l14, "WantedBy=multi-user.target"@);
    let l15 = l14.push("WantedBy=multi-user.target"@);
    assert("Restart=on-failure\n"@ =~= "Restart=on-failure"@ + "\n"@);
    assert("RestartSec=5\n"@ =~= "RestartSec=5"@ + "\n"@);
    assert("[Install]\n"@ =~= "[Install]"@ + "\n"@);
    assert("WantedBy=multi-user.target\n"@ =~= "WantedBy=multi-user.target"@ + "\n"@);
    assert(in_lines(l15) =~= t10 + unit_closing());
    assert(l15 =~= unit_lines(d));
}

proof fn lemma_one_line(lines: Seq<Seq<char>>, line: Seq<char>)
    ensures
        in_lines(lines.push(line)) == in_lines(lines) + line + "\n"@,
    decreases lines.len(),
{
    reveal_with_fuel(in_lines, 2);
    let more = lines.push(line);
    if lines.len() == 0 {
        assert(more.drop_first() =~= Seq::<Seq<char>>::empty());
        assert(in_lines(more) =~= in_lines(lines) + line + "\n"@);
    } else {
        lemma_one_line(lines.drop_first(), line);
        assert(more.drop_first() =~= lines.drop_first().push(line));
        assert(in_lines(more) =~= in_lines(lines) + line + "\n"@);
    }
}

/// Arguments that are joined by a space are each after one, but for the first.
proof fn lemma_spoken(arguments: Seq<String>)
    ensures
        arguments.len() > 0 ==> " "@ + text::joined(text::read(arguments), " "@) == spoken(
            arguments,
        ),
    decreases arguments.len(),
{
    reveal_with_fuel(spoken, 2);
    let parts = text::read(arguments);
    if arguments.len() == 1 {
        assert(arguments.drop_first() =~= Seq::<String>::empty());
        assert(" "@ + text::joined(parts, " "@) =~= spoken(arguments));
    } else if arguments.len() > 1 {
        lemma_spoken(arguments.drop_last());
        lemma_spoken_more(arguments.drop_last(), arguments.last());
        assert(arguments.drop_last().push(arguments.last()) =~= arguments);
        assert(parts.drop_last() =~= text::read(arguments.drop_last()));
        assert(" "@ + text::joined(parts, " "@) =~= (" "@ + text::joined(parts.drop_last(), " "@))
            + " "@ + arguments.last()@);
    }
}

proof fn lemma_spoken_more(arguments: Seq<String>, last: String)
    ensures
        spoken(arguments.push(last)) == spoken(arguments) + " "@ + last@,
    decreases arguments.len(),
{
    reveal_with_fuel(spoken, 2);
    let more = arguments.push(last);
    if arguments.len() == 0 {
        assert(more.drop_first() =~= Seq::<String>::empty());
        assert(spoken(more) =~= spoken(arguments) + " "@ + last@);
    } else {
        lemma_spoken_more(arguments.drop_first(), last);
        assert(more.drop_first() =~= arguments.drop_first().push(last));
        assert(spoken(more) =~= spoken(arguments) + " "@ + last@);
    }
}

/// Every argument in order, each as a string of a property list's array.
pub open spec fn listed(arguments: Seq<String>) -> Seq<char>
    decreases arguments.len(),
{
    if arguments.len() == 0 {
        Seq::empty()
    } else {
        "\t\t<string>"@ + arguments[0]@ + "</string>\n"@ + listed(arguments.drop_first())
    }
}

/// A property list carries the service's name, its directory, and one array
/// with the executable and after it every argument, in order, and nothing else.
pub proof fn law_a_plist_runs_the_program_with_its_arguments(
    definition: ServiceDefinition,
    plist: String,
)
    requires
        call_ensures(launchd_plist, (&definition,), plist),
    ensures
        text::holds(
            plist@,
            "\t<key>Label</key>\n\t<string>"@ + definition.name@ + "</string>\n"@,
        ),
        text::holds(
            plist@,
            "\t<key>ProgramArguments</key>\n\t<array>\n"@ + ("\t\t<string>"@
                + definition.executable@ + "</string>\n"@ + listed(definition.arguments@))
                + "\t</array>\n"@,
        ),
        text::holds(
            plist@,
            "\t<key>WorkingDirectory</key>\n\t<string>"@ + definition.working_directory@
                + "</string>\n"@,
        ),
        definition.service_identity matches Some(user) ==> text::holds(
            plist@,
            "\t<key>UserName</key>\n\t<string>"@ + user@ + "</string>\n"@,
        ),
{
    let d = definition;
    lemma_listed(d.arguments@);
    let xml = "<?xml version=\"1.0\" encoding=\"UTF-8\"?>\n<plist version=\"1.0\">\n<dict>\n"@;
    let label = "\t<key>Label</key>\n\t<string>"@ + d.name@ + "</string>\n"@;
    let array = "\t<key>ProgramArguments</key>\n\t<array>\n"@ + ("\t\t<string>"@ + d.executable@
        + "</string>\n"@ + listed(d.arguments@)) + "\t</array>\n"@;
    let directory = "\t<key>WorkingDirectory</key>\n\t<string>"@ + d.working_directory@
        + "</string>\n"@;
    let user = plist_user(d.service_identity);
    let end = plist_closing();
    let opened = xml + label + array + directory;
    assert(opened =~= plist_opening(d));
    assert(plist@ == opened + user + end);
    assert(plist@ =~= xml + label + (array + directory + user + end));
    text::lemma_holds(xml, label, array + directory + user + end);
    assert(plist@ =~= (xml + label) + array + (directory + user + end));
    text::lemma_holds(xml + label, array, directory + user + end);
    assert(plist@ =~= (xml + label + array) + directory + (user + end));
    text::lemma_holds(xml + label + array, directory, user + end);
    text::lemma_holds(opened, user, end);
}

proof fn lemma_listed(arguments: Seq<String>)
    ensures
        text::gathered(arguments, |argument: String| plist_string(argument@)) == listed(arguments),
    decreases arguments.len(),
{
    let said = |argument: String| plist_string(argument@);
    if arguments.len() > 0 {
        lemma_listed(arguments.drop_last());
        lemma_listed_more(arguments.drop_last(), arguments.last());
        assert(arguments.drop_last().push(arguments.last()) =~= arguments);
        assert(text::gathered(arguments, said) =~= listed(arguments));
    }
}

proof fn lemma_listed_more(arguments: Seq<String>, last: String)
    ensures
        listed(arguments.push(last)) == listed(arguments) + ("\t\t<string>"@ + last@
            + "</string>\n"@),
    decreases arguments.len(),
{
    reveal_with_fuel(listed, 2);
    let more = arguments.push(last);
    let line = "\t\t<string>"@ + last@ + "</string>\n"@;
    if arguments.len() == 0 {
        assert(more.drop_first() =~= Seq::<String>::empty());
        assert(listed(more) =~= listed(arguments) + line);
    } else {
        lemma_listed_more(arguments.drop_first(), last);
        assert(more.drop_first() =~= arguments.drop_first().push(last));
        assert(listed(more) =~= listed(arguments) + line);
    }
}

/// What `sc.exe` is told: to create a service of the definition's name, that it
/// runs the executable with every argument in order, each after a space, what
/// an operator sees, that it starts by itself, and last the account where one
/// is named.
pub proof fn law_windows_is_told_the_whole_definition(
    definition: ServiceDefinition,
    told: Vec<String>,
)
    requires
        call_ensures(windows_service_arguments, (&definition,), told),
    ensures
        told@.len() == 5 + (if definition.service_identity is Some {
            1int
        } else {
            0
        }),
        told@[0]@ == "create"@,
        told@[1]@ == definition.name@,
        told@[2]@ == "binPath= "@ + (definition.executable@ + spoken(definition.arguments@)),
        told@[3]@ == "DisplayName= "@ + definition.display_name@,
        told@[4]@ == "start= auto"@,
        definition.service_identity matches Some(user) ==> told@[5]@ == "obj= "@ + user@,
{
    lemma_spoken_gathered(definition.arguments@);
    let read = text::read(told@);
    assert(read == windows_arguments(definition));
    assert(read.len() == told@.len());
    assert forall|i: int| 0 <= i < told@.len() implies read[i] == #[trigger] told@[i]@ by {}
    assert(read[0] == told@[0]@ && read[1] == told@[1]@ && read[2] == told@[2]@);
    assert(read[3] == told@[3]@ && read[4] == told@[4]@);
    if definition.service_identity is Some {
        assert(read[5] == told@[5]@);
    }
}

proof fn lemma_spoken_gathered(arguments: Seq<String>)
    ensures
        text::gathered(arguments, |argument: String| " "@ + argument@) == spoken(arguments),
    decreases arguments.len(),
{
    let said = |argument: String| " "@ + argument@;
    if arguments.len() > 0 {
        lemma_spoken_gathered(arguments.drop_last());
        lemma_spoken_more(arguments.drop_last(), arguments.last());
        assert(arguments.drop_last().push(arguments.last()) =~= arguments);
        assert(text::gathered(arguments, said) =~= spoken(arguments));
    }
}

/// A node's own service is started as the service of that node, wherever it is
/// registered, and a Host Service as that host of that node: the arguments that
/// select the part stand behind the executable.
pub proof fn law_a_service_is_started_as_the_part_it_is(
    node: &str,
    host_type: &str,
    hosts: &[String],
    executable: &str,
    directory: &str,
    own: ServiceDefinition,
    host: ServiceDefinition,
)
    requires
        call_ensures(ServiceDefinition::for_node, (node, executable, directory), own),
        call_ensures(
            ServiceDefinition::for_host,
            (node, host_type, hosts, executable, directory),
            host,
        ),
    ensures
        own.executable@ == executable@,
        own.working_directory@ == directory@,
        own.service_identity is None,
        own.name@ == "xmip-"@ + node@,
        spoken(own.arguments@) == " "@ + "service"@ + " "@ + ("--node="@ + node@),
        text::holds(own.display_name@, node@),
        text::holds(own.description@, node@),
        host.executable@ == executable@,
        host.working_directory@ == directory@,
        host.service_identity is None,
        host.name@ == "xmip-"@ + node@ + "-"@ + host_type@,
        spoken(host.arguments@) == " "@ + "host"@ + " "@ + ("--node="@ + node@) + " "@ + (
        "--host="@ + host_type@),
        text::holds(host.display_name@, node@ + "/"@ + host_type@),
        text::holds(host.description@, " for node "@ + node@ + "."@),
        forall|i: int|
            0 <= i < hosts@.len() ==> text::holds(host.description@, (#[trigger] hosts@[i])@),
{
    let own_read = text::read(own.arguments@);
    assert(own_read == seq!["service"@, "--node="@ + node@]);
    assert(own_read.len() == 2);
    assert(own_read.len() == own.arguments@.len() && own_read[0] == own.arguments@[0]@
        && own_read[1] == own.arguments@[1]@);
    let host_read = text::read(host.arguments@);
    assert(host_read.len() == 3);
    assert(host_read.len() == host.arguments@.len() && host_read[0] == host.arguments@[0]@
        && host_read[1] == host.arguments@[1]@ && host_read[2] == host.arguments@[2]@);
    reveal_with_fuel(spoken, 4);
    assert(spoken(own.arguments@) =~= " "@ + "service"@ + " "@ + ("--node="@ + node@));
    assert(spoken(host.arguments@) =~= " "@ + "host"@ + " "@ + ("--node="@ + node@) + " "@ + (
    "--host="@ + host_type@));
    text::lemma_holds("Xmip Service ("@, node@, ")"@);
    text::lemma_holds(
        "Reads the configuration for node "@,
        node@,
        ", builds and validates the execution tree, and supervises its Host Services. Not in the message path."@,
    );
    let shown = node@ + "/"@ + host_type@;
    assert(host.display_name@ =~= "Xmip Host Service ("@ + shown + ")"@);
    text::lemma_holds("Xmip Host Service ("@, shown, ")"@);
    let what = hosted(text::read(hosts@));
    let tail = " for node "@ + node@ + "."@;
    assert(host.description@ =~= ("Hosts "@ + what) + tail + Seq::empty());
    text::lemma_holds("Hosts "@ + what, tail, Seq::empty());
    assert forall|i: int| 0 <= i < hosts@.len() implies text::holds(
        host.description@,
        (#[trigger] hosts@[i])@,
    ) by {
        let parts = text::read(hosts@);
        assert(parts[i] == hosts@[i]@);
        text::lemma_joined_holds(parts, ", "@, i);
        assert(host.description@ =~= "Hosts "@ + what + tail);
        text::lemma_holds_within("Hosts "@, what, tail, hosts@[i]@);
    }
}

/// `unit` is made of lines none of which sets `key`.
pub open spec fn sets_nowhere(unit: Seq<char>, key: Seq<char>) -> bool {
    exists|lines: Seq<Seq<char>>|
        {
            &&& #[trigger] in_lines(lines) == unit
            &&& forall|i: int|
                0 <= i < lines.len() ==> !begins_with(#[trigger] lines[i], key)
        }
}

/// Whatever a unit describes, it comes up with the system once the network is
/// there, is up when it says so, and is started again a while after it failed
/// and only then; each is said once. Without an account none is named.
pub proof fn law_a_unit_comes_up_with_the_system(definition: ServiceDefinition, unit: String)
    requires
        call_ensures(systemd_unit, (&definition,), unit),
    ensures
        sets_once(unit@, "After="@, "network-online.target"@),
        sets_once(unit@, "Wants="@, "network-online.target"@),
        sets_once(unit@, "Type="@, "notify"@),
        sets_once(unit@, "Restart="@, "on-failure"@),
        sets_once(unit@, "RestartSec="@, "5"@),
        sets_once(unit@, "WantedBy="@, "multi-user.target"@),
        definition.service_identity is None ==> sets_nowhere(unit@, "User="@),
{
    let lines = unit_lines(definition);
    lemma_unit_lines(definition);
    lemma_unit_keys(definition);
    reveal_strlit("After=");
    reveal_strlit("Wants=");
    reveal_strlit("Type=");
    reveal_strlit("Restart=");
    reveal_strlit("RestartSec=");
    reveal_strlit("WantedBy=");
    reveal_strlit("User=");
    reveal_strlit("network-online.target");
    reveal_strlit("notify");
    reveal_strlit("on-failure");
    reveal_strlit("5");
    reveal_strlit("multi-user.target");
    reveal_strlit("After=network-online.target");
    reveal_strlit("Wants=network-online.target");
    reveal_strlit("Type=notify");
    reveal_strlit("Restart=on-failure");
    reveal_strlit("RestartSec=5");
    reveal_strlit("WantedBy=multi-user.target");
    let n = lines.len();
    assert(lines[2] =~= "After="@ + "network-online.target"@);
    assert(lines[3] =~= "Wants="@ + "network-online.target"@);
    assert(lines[6] =~= "Type="@ + "notify"@);
    assert(lines[n - 5] =~= "Restart="@ + "on-failure"@);
    assert(lines[n - 4] =~= "RestartSec="@ + "5"@);
    assert(lines[n - 1] =~= "WantedBy="@ + "multi-user.target"@);
    assert(sets_once(unit@, "After="@, "network-online.target"@));
    assert(sets_once(unit@, "Wants="@, "network-online.target"@));
    assert(sets_once(unit@, "Type="@, "notify"@));
    assert(sets_once(unit@, "Restart="@, "on-failure"@));
    assert(sets_once(unit@, "RestartSec="@, "5"@));
    assert(sets_once(unit@, "WantedBy="@, "multi-user.target"@));
}

/// Which line of a unit sets which key.
proof fn lemma_unit_keys(definition: ServiceDefinition)
    ensures
        ({
            let lines = unit_lines(definition);
            let n = lines.len();
            &&& forall|i: int|
                #![trigger lines[i]]
                0 <= i < n ==> {
                    &&& begins_with(lines[i], "After="@) ==> i == 2
                    &&& begins_with(lines[i], "Wants="@) ==> i == 3
                    &&& begins_with(lines[i], "Type="@) ==> i == 6
                    &&& begins_with(lines[i], "Restart="@) ==> i == n - 5
                    &&& begins_with(lines[i], "RestartSec="@) ==> i == n - 4
                    &&& begins_with(lines[i], "WantedBy="@) ==> i == n - 1
                    &&& begins_with(lines[i], "User="@) ==> definition.service_identity is Some
                }
        }),
{
    reveal_strlit("[Unit]");
    reveal_strlit("Description=");
    reveal_strlit("After=network-online.target");
    reveal_strlit("Wants=network-online.target");
    reveal_strlit("");
    reveal_strlit("[Service]");
    reveal_strlit("Type=notify");
    reveal_strlit("ExecStart=");
    reveal_strlit("WorkingDirectory=");
    reveal_strlit("User=");
    reveal_strlit("Restart=on-failure");
    reveal_strlit("RestartSec=5");
    reveal_strlit("[Install]");
    reveal_strlit("WantedBy=multi-user.target");
    reveal_strlit("After=");
    reveal_strlit("Wants=");
    reveal_strlit("Type=");
    reveal_strlit("Restart=");
    reveal_strlit("RestartSec=");
    reveal_strlit("WantedBy=");
    let lines = unit_lines(definition);
    let n = lines.len();
    assert forall|i: int|
        #![trigger lines[i]]
        0 <= i < n implies {
        &&& begins_with(lines[i], "After="@) ==> i == 2
        &&& begins_with(lines[i], "Wants="@) ==> i == 3
        &&& begins_with(lines[i], "Type="@) ==> i == 6
        &&& begins_with(lines[i], "Restart="@) ==> i == n - 5
        &&& begins_with(lines[i], "RestartSec="@) ==> i == n - 4
        &&& begins_with(lines[i], "WantedBy="@) ==> i == n - 1
        &&& begins_with(lines[i], "User="@) ==> definition.service_identity is Some
    } by {
        let line = lines[i];
        if begins_with(line, "After="@) {
            assert(line.take(6)[0] == 'A');
        }
        if begins_with(line, "Wants="@) {
            assert(line.take(6)[0] == 'W' && line.take(6)[4] == 's');
        }
        if begins_with(line, "Type="@) {
            assert(line.take(5)[0] == 'T');
        }
        if begins_with(line, "Restart="@) {
            assert(line.take(8)[0] == 'R' && line.take(8)[7] == '=');
        }
        if begins_with(line, "RestartSec="@) {
            assert(line.take(11)[0] == 'R' && line.take(11)[7] == 'S');
        }
        if begins_with(line, "WantedBy="@) {
            assert(line.take(9)[0] == 'W' && line.take(9)[4] == 'e');
        }
        if begins_with(line, "User="@) {
            assert(line.take(5)[0] == 'U');
        }
    }
}

/// A service is registered exactly where the target has something to register
/// with, and a target that is none of the three known ones has nothing.
pub proof fn law_a_target_registers_where_it_has_a_manager(
    target: &str,
    manager: ServiceManager,
    registers: bool,
)
    requires
        call_ensures(ServiceManager::for_target, (target,), manager),
        call_ensures(ServiceManager::registers, (manager,), registers),
    ensures
        registers <==> target@ == "windows"@ || target@ == "linux"@ || target@ == "macos"@,
        target@ == "windows"@ ==> manager == ServiceManager::WindowsScm,
        target@ == "linux"@ ==> manager == ServiceManager::Systemd,
        target@ == "macos"@ ==> manager == ServiceManager::Launchd,
{
    reveal_strlit("windows");
    reveal_strlit("linux");
    reveal_strlit("macos");
    assert("windows"@.len() == 7);
    assert("linux"@.len() == 5 && "linux"@[0] == 'l');
    assert("macos"@.len() == 5 && "macos"@[0] == 'm');
}

/// Naming an account changes the account and nothing else.
pub proof fn law_an_account_changes_nothing_else(
    before: ServiceDefinition,
    identity: &str,
    after: ServiceDefinition,
)
    requires
        call_ensures(ServiceDefinition::running_as, (before, identity), after),
    ensures
        after.service_identity is Some && after.service_identity->0@ == identity@,
        after.name@ == before.name@,
        after.display_name@ == before.display_name@,
        after.description@ == before.description@,
        after.executable@ == before.executable@,
        after.arguments@ == before.arguments@,
        after.working_directory@ == before.working_directory@,
{
}

} // verus!
