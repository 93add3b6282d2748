//! Starting a node from its configuration, as far as the runtime can today.
//!
//! Startup has nine phases. What is here performs the first three (read, build
//! the execution tree, validate) and says what it planned, saying in every
//! record of the plan that phases four to nine are not built. An operator reading green over
//! a node that has not loaded a module has been told something false.

use vstd::prelude::*;
use vstd::string::*;

use crate::abi::Status;
use crate::boundary;
use crate::boundary::{refuse, scope_text, Written};
use crate::configure::{
    ModuleConfiguration, XmipConfigurationDocument, XmipProcessConfiguration,
};
use crate::observe;
use crate::observe::{Light, LightReading, LightRecord};
use crate::rule;
use crate::service::plan_startup_from_toml;
use crate::text;

verus! {

/// What of a node's configuration starting it goes by.
#[derive(Debug)]
pub struct NodeConfiguration {
    pub node_name: String,
    pub modules: Vec<ModuleConfiguration>,
    pub xmip_processes: Vec<XmipProcessConfiguration>,
}

/// What was found where the configuration should be.
#[derive(Debug)]
pub enum Found {
    /// The file cannot be read, and why.
    Unreadable(String),
    /// It is not a configuration, and why.
    Unparsed(String),
    /// The configuration, and the same text read as the document that startup
    /// plans from.
    Parsed {
        configuration: NodeConfiguration,
        document: Result<XmipConfigurationDocument, String>,
    },
}

/// The moment in nanoseconds since the epoch: zero for a clock that stands
/// before it, and the last moment there is for one past all of them.
pub open spec fn nanos(since_epoch: Option<u128>) -> i64 {
    match since_epoch {
        None => 0,
        Some(nanos) => if nanos <= i64::MAX {
            nanos as i64
        } else {
            i64::MAX
        },
    }
}

/// `since_epoch` is how long ago the epoch was, and `None` where the clock
/// stands before it.
pub fn now_unix_nanos(since_epoch: Option<u128>) -> (r: i64)
    ensures
        r == nanos(since_epoch),
{
    match since_epoch {
        None => 0,
        Some(nanos) => if nanos <= i64::MAX as u128 {
            nanos as i64
        } else {
            i64::MAX
        },
    }
}

/// What a runtime says about itself before any node has published: it is here,
/// and it has nothing to run. Yellow, not red, because nothing is failing; and
/// not green, because an operator who sees green over an unconfigured runtime
/// has been told something false. The one line of evidence is the one they
/// need.
pub fn unconfigured(now: i64) -> (r: LightRecord)
    ensures
        r@ == (LightReading {
            scope: "xmip:///"@,
            light: Light::Yellow,
            evidence:
                "runtime loaded, no node started \u{2014} give xmip_start_v1 a node TOML"@,
            observed_unix_nanos: now,
        }),
{
    LightRecord {
        scope: "xmip:///".to_string(),
        light: Light::Yellow,
        evidence:
            "runtime loaded, no node started \u{2014} give xmip_start_v1 a node TOML".to_string(),
        observed_unix_nanos: now,
    }
}

/// Why startup refuses a document: that it does not parse, or every error in
/// it. Nothing where it does not refuse.
pub open spec fn refusal(document: Result<XmipConfigurationDocument, String>) -> Seq<Seq<char>> {
    match document {
        Ok(document) => crate::execution_tree::startup_errors(document),
        Err(error) => seq!["configuration parse failed: "@ + error@],
    }
}

/// The scope of a node.
pub open spec fn node_scope(configuration: NodeConfiguration) -> Seq<char> {
    "xmip:///"@ + configuration.node_name@
}

/// How many Modules start with the node.
pub open spec fn modules_starting(configuration: NodeConfiguration) -> nat {
    text::gathered(configuration.modules@, starting_module()).len()
}

/// How many Xmip Processes start with the node.
pub open spec fn processes_starting(configuration: NodeConfiguration) -> nat {
    text::gathered(configuration.xmip_processes@, starting_process()).len()
}

/// A Module, where it starts with the node.
pub open spec fn starting_module() -> spec_fn(ModuleConfiguration) -> Seq<ModuleConfiguration> {
    |module: ModuleConfiguration|
        if module.start {
            seq![module]
        } else {
            Seq::empty()
        }
}

/// An Xmip Process, where it starts with the node.
pub open spec fn starting_process() -> spec_fn(XmipProcessConfiguration) -> Seq<
    XmipProcessConfiguration,
> {
    |process: XmipProcessConfiguration|
        if process.start {
            seq![process]
        } else {
            Seq::empty()
        }
}

/// What every record of a plan ends with: how far startup goes today.
pub const UNBUILT: &'static str =
    " \u{2014} phases 4\u{2013}9 (start, load, accept work) are not built yet";

/// What is said of the node that was planned.
pub open spec fn node_planned(configuration: NodeConfiguration, now: i64) -> LightReading {
    LightReading {
        scope: node_scope(configuration),
        light: Light::Yellow,
        evidence: text::decimal(modules_starting(configuration)) + " module(s), "@ + text::decimal(
            processes_starting(configuration),
        )
            + " process(es) validated and planned; not running"@ + UNBUILT@,
        observed_unix_nanos: now,
    }
}

/// What is said of a Module that was planned.
pub open spec fn module_planned(
    node: Seq<char>,
    module: ModuleConfiguration,
    now: i64,
) -> LightReading {
    LightReading {
        scope: node + "/module/"@ + module.name@,
        light: Light::Yellow,
        evidence: "planned, not loaded ("@ + module.manifest.identity.version@ + ")"@ + UNBUILT@,
        observed_unix_nanos: now,
    }
}

/// What is said of an Xmip Process that was planned.
pub open spec fn process_planned(
    node: Seq<char>,
    process: XmipProcessConfiguration,
    now: i64,
) -> LightReading {
    LightReading {
        scope: node + "/process/"@ + process.name@,
        light: Light::Yellow,
        evidence: "planned, not started; needs "@ + text::joined(
            text::read(process.required_modules@),
            ", "@,
        ) + UNBUILT@,
        observed_unix_nanos: now,
    }
}

/// What is said of every Module that starts with the node, in order.
pub open spec fn modules_planned(
    node: Seq<char>,
    modules: Seq<ModuleConfiguration>,
    now: i64,
) -> Seq<LightReading> {
    text::gathered(modules, starting_module()).map_values(
        |module: ModuleConfiguration| module_planned(node, module, now),
    )
}

/// What is said of every Xmip Process that starts with the node, in order.
pub open spec fn processes_planned(
    node: Seq<char>,
    processes: Seq<XmipProcessConfiguration>,
    now: i64,
) -> Seq<LightReading> {
    text::gathered(processes, starting_process()).map_values(
        |process: XmipProcessConfiguration| process_planned(node, process, now),
    )
}

/// One record, and a red one.
pub open spec fn red(scope: Seq<char>, evidence: Seq<char>, now: i64) -> Seq<LightReading> {
    seq![LightReading { scope, light: Light::Red, evidence, observed_unix_nanos: now }]
}

/// Everything that is said of a node that was to start.
pub open spec fn said_of(path: Seq<char>, found: Found, now: i64) -> Seq<LightReading> {
    match found {
        Found::Unreadable(error) => red("xmip:///"@, "cannot read "@ + path + ": "@ + error@, now),
        Found::Unparsed(error) => red("xmip:///"@, path + " does not parse: "@ + error@, now),
        Found::Parsed { configuration, document } => {
            let node = node_scope(configuration);
            if refusal(document).len() > 0 {
                red(node, "configuration refused: "@ + text::joined(refusal(document), "; "@), now)
            } else {
                plan_said(configuration, now)
            }
        },
    }
}

/// Everything that is said of a node that was planned: of itself, of its Modules
/// and of its Processes.
pub open spec fn plan_said(configuration: NodeConfiguration, now: i64) -> Seq<LightReading> {
    let node = node_scope(configuration);
    seq![node_planned(configuration, now)] + modules_planned(node, configuration.modules@, now)
        + processes_planned(node, configuration.xmip_processes@, now)
}

/// Start a node from what was found where its configuration should be, as far
/// as the runtime can today: build the execution tree, validate it, and say what
/// it plans.
///
/// Red when the file cannot be read or does not validate, with the errors as
/// evidence. A refusal that names the fault is the point of validating first.
pub fn start(path: &str, found: Found, now: i64) -> (r: Vec<LightRecord>)
    ensures
        observe::readings(r@) == said_of(path@, found, now),
{
    match found {
        Found::Unreadable(error) => one_red(
            "xmip:///".to_string(),
            "cannot read ".to_string().concat(path).concat(": ").concat(error.as_str()),
            now,
        ),
        Found::Unparsed(error) => one_red(
            "xmip:///".to_string(),
            path.to_string().concat(" does not parse: ").concat(error.as_str()),
            now,
        ),
        Found::Parsed { configuration, document } => {
            let ghost refused = refusal(document);
            let node = "xmip:///".to_string().concat(configuration.node_name.as_str());
            match plan_startup_from_toml(document) {
                Ok(_) => planned(&configuration, node, now),
                Err(report) => {
                    assert(text::read(report.errors@) == refused);
                    let evidence = "configuration refused: ".to_string().concat(
                        text::join(report.errors.as_slice(), "; ").as_str(),
                    );
                    one_red(node, evidence, now)
                },
            }
        },
    }
}

fn one_red(scope: String, evidence: String, now: i64) -> (r: Vec<LightRecord>)
    ensures
        observe::readings(r@) == red(scope@, evidence@, now),
{
    let ghost wanted = red(scope@, evidence@, now);
    let records = vec![
        LightRecord { scope, light: Light::Red, evidence, observed_unix_nanos: now },
    ];
    assert(observe::readings(records@) =~= wanted);
    records
}

/// What is said of a node that was planned, of its Modules and of its
/// Processes.
fn planned(configuration: &NodeConfiguration, node: String, now: i64) -> (r: Vec<LightRecord>)
    requires
        node@ == node_scope(*configuration),
    ensures
        observe::readings(r@) == plan_said(*configuration, now),
{
    let modules = plan_modules(&configuration.modules, node.as_str(), now);
    let processes = plan_processes(&configuration.xmip_processes, node.as_str(), now);
    proof {
        assert(modules@.len() == observe::readings(modules@).len());
        assert(processes@.len() == observe::readings(processes@).len());
    }
    let evidence = text::decimal_text(modules.len() as u64).concat(" module(s), ").concat(
        text::decimal_text(processes.len() as u64).as_str(),
    ).concat(" process(es) validated and planned; not running").concat(UNBUILT);
    let mut records = vec![
        LightRecord {
            scope: node.clone(),
            light: Light::Yellow,
            evidence,
            observed_unix_nanos: now,
        },
    ];
    let ghost first = seq![node_planned(*configuration, now)];
    assert(observe::readings(records@) =~= first);
    let ghost of_modules = observe::readings(modules@);
    let ghost of_processes = observe::readings(processes@);
    let mut modules = modules;
    let mut processes = processes;
    records.append(&mut modules);
    records.append(&mut processes);
    assert(observe::readings(records@) =~= first + of_modules + of_processes);
    records
}

fn plan_modules(modules: &Vec<ModuleConfiguration>, node: &str, now: i64) -> (r: Vec<LightRecord>)
    ensures
        observe::readings(r@) == modules_planned(node@, modules@, now),
{
    let mut records: Vec<LightRecord> = Vec::new();
    let mut at: usize = 0;
    assert(observe::readings(records@) =~= modules_planned(node@, modules@.take(0), now));
    while at < modules.len()
        invariant
            at <= modules@.len(),
            observe::readings(records@) == modules_planned(node@, modules@.take(at as int), now),
        decreases modules@.len() - at,
    {
        let module = &modules[at];
        proof {
            text::lemma_gathered_step(modules@, at as int, starting_module());
        }
        let ghost before = observe::readings(records@);
        if module.start {
            records.push(
                LightRecord {
                    scope: node.to_string().concat("/module/").concat(module.name.as_str()),
                    light: Light::Yellow,
                    evidence: "planned, not loaded (".to_string().concat(
                        module.manifest.identity.version.as_str(),
                    ).concat(")").concat(UNBUILT),
                    observed_unix_nanos: now,
                },
            );
            assert(observe::readings(records@) =~= before.push(
                module_planned(node@, *module, now),
            ));
        }
        at += 1;
        assert(observe::readings(records@) =~= modules_planned(
            node@,
            modules@.take(at as int),
            now,
        ));
    }
    assert(modules@.take(at as int) =~= modules@);
    records
}

fn plan_processes(
    processes: &Vec<XmipProcessConfiguration>,
    node: &str,
    now: i64,
) -> (r: Vec<LightRecord>)
    ensures
        observe::readings(r@) == processes_planned(node@, processes@, now),
{
    let mut records: Vec<LightRecord> = Vec::new();
    let mut at: usize = 0;
    assert(observe::readings(records@) =~= processes_planned(node@, processes@.take(0), now));
    while at < processes.len()
        invariant
            at <= processes@.len(),
            observe::readings(records@) == processes_planned(
                node@,
                processes@.take(at as int),
                now,
            ),
        decreases processes@.len() - at,
    {
        let process = &processes[at];
        proof {
            text::lemma_gathered_step(processes@, at as int, starting_process());
        }
        let ghost before = observe::readings(records@);
        if process.start {
            records.push(
                LightRecord {
                    scope: node.to_string().concat("/process/").concat(process.name.as_str()),
                    light: Light::Yellow,
                    evidence: "planned, not started; needs ".to_string().concat(
                        text::join(process.required_modules.as_slice(), ", ").as_str(),
                    ).concat(UNBUILT),
                    observed_unix_nanos: now,
                },
            );
            assert(observe::readings(records@) =~= before.push(
                process_planned(node@, *process, now),
            ));
        }
        at += 1;
        assert(observe::readings(records@) =~= processes_planned(
            node@,
            processes@.take(at as int),
            now,
        ));
    }
    assert(processes@.take(at as int) =~= processes@);
    records
}

/// The path a surface wants a node started from, or that it is no text.
pub fn xmip_start_v1<'a>(path: Option<&'a [u8]>) -> (r: Result<&'a str, Status>)
    ensures
        (r is Ok) == (boundary::reading(path) is Some),
        r matches Ok(text) ==> text@ == boundary::reading(path)->0,
        r matches Err(status) ==> status == Status::Malformed,
{
    match scope_text(path) {
        Some(text) => Ok(text),
        None => Err(Status::Malformed),
    }
}

/// What starting a node comes to, by the worst light over everything: a node
/// that validated is nowhere red. The records say why either way, so a surface
/// reads those rather than the status.
pub fn started(worst: Option<Light>) -> (r: Status)
    ensures
        r == (if worst == Some(Light::Red) {
            Status::Invalid
        } else {
            Status::Okay
        }),
{
    match worst {
        Some(Light::Red) => Status::Invalid,
        _ => Status::Okay,
    }
}

/// A validation's answer in the header's shape.
#[derive(Debug)]
pub struct Validation {
    pub status: Status,
    pub report: Written,
}

/// `validation` is what these problems come to: one line each, and no status
/// but good where there are none.
pub open spec fn validates(validation: Validation, problems: Seq<String>, cap: usize) -> bool {
    &&& validation.status == (if problems.len() == 0 {
        Status::Okay
    } else {
        Status::Invalid
    })
    &&& boundary::writes(validation.report, text::joined(text::read(problems), "\n"@), cap)
}

/// The problems of a configuration, one per line, as far as there is room. The
/// length is the true one whether or not it fit, so a surface that passed too
/// small a buffer asks again.
pub fn xmip_validate_v1<'a, F: Fn(&'a str) -> Vec<String>>(
    configuration: Option<&'a [u8]>,
    cap: usize,
    validate: F,
) -> (r: Result<Validation, Status>)
    requires
        rule::takes_text(validate),
    ensures
        (r is Ok) == (boundary::reading(configuration) is Some),
        r matches Err(status) ==> status == Status::Malformed,
        r matches Ok(validation) ==> exists|problems: Vec<String>| #[trigger]
            rule::says(validate, boundary::reading(configuration)->0, problems) && validates(
                validation,
                problems@,
                cap,
            ),
{
    match scope_text(configuration) {
        Some(text) => {
            let problems = validate(text);
            assert(rule::says(validate, text@, problems));
            let joined = text::join(problems.as_slice(), "\n");
            let status = if problems.is_empty() {
                Status::Okay
            } else {
                Status::Invalid
            };
            Ok(Validation { status, report: refuse(joined.as_str(), cap) })
        },
        None => Err(Status::Malformed),
    }
}

/// No record is ever green: a node of which only the first three phases ran is
/// not running.
pub proof fn law_starting_never_shows_green(path: Seq<char>, found: Found, now: i64)
    ensures
        forall|i: int|
            0 <= i < said_of(path, found, now).len() ==> (#[trigger] said_of(
                path,
                found,
                now,
            )[i]).light != Light::Green,
{
    law_red_is_a_refusal(path, found, now);
}

/// A node was refused: its configuration could not be read, does not parse or
/// does not validate.
pub open spec fn turned_down(found: Found) -> bool {
    match found {
        Found::Parsed { configuration, document } => refusal(document).len() > 0,
        _ => true,
    }
}

/// Red, and then in the one record there is, exactly where a node was refused.
pub proof fn law_red_is_a_refusal(path: Seq<char>, found: Found, now: i64)
    ensures
        turned_down(found) ==> said_of(path, found, now).len() == 1 && said_of(
            path,
            found,
            now,
        )[0].light == Light::Red,
        !turned_down(found) ==> said_of(path, found, now).len() > 0 && forall|i: int|
            0 <= i < said_of(path, found, now).len() ==> (#[trigger] said_of(
                path,
                found,
                now,
            )[i]).light == Light::Yellow,
{
    match found {
        Found::Parsed { configuration, document } => lemma_plan(configuration, now),
        _ => {},
    }
}

/// Every record of a node that was planned says that phases four to nine are
/// not built.
pub proof fn law_every_planned_record_says_what_is_not_built(
    path: Seq<char>,
    found: Found,
    now: i64,
)
    requires
        !turned_down(found),
    ensures
        forall|i: int|
            0 <= i < said_of(path, found, now).len() ==> text::ends_in(
                (#[trigger] said_of(path, found, now)[i]).evidence,
                UNBUILT@,
            ),
{
    match found {
        Found::Parsed { configuration, document } => lemma_plan_unbuilt(configuration, now),
        _ => {},
    }
}

/// A node that validated has a record for itself, for each Module that starts
/// and for each Process that starts, and none besides.
pub proof fn law_every_started_artifact_has_its_record(
    path: Seq<char>,
    configuration: NodeConfiguration,
    document: Result<XmipConfigurationDocument, String>,
    now: i64,
)
    requires
        refusal(document).len() == 0,
    ensures
        said_of(path, Found::Parsed { configuration, document }, now) == plan_said(
            configuration,
            now,
        ),
        plan_said(configuration, now).len() == 1 + modules_starting(configuration)
            + processes_starting(configuration),
{
    lemma_plan(configuration, now);
}

proof fn lemma_plan(configuration: NodeConfiguration, now: i64)
    ensures
        plan_said(configuration, now).len() == 1 + modules_starting(configuration)
            + processes_starting(configuration),
        forall|i: int|
            0 <= i < plan_said(configuration, now).len() ==> (#[trigger] plan_said(
                configuration,
                now,
            )[i]).light == Light::Yellow,
{
}

proof fn lemma_plan_unbuilt(configuration: NodeConfiguration, now: i64)
    ensures
        forall|i: int|
            0 <= i < plan_said(configuration, now).len() ==> text::ends_in(
                (#[trigger] plan_said(configuration, now)[i]).evidence,
                UNBUILT@,
            ),
{
    let node = node_scope(configuration);
    let modules = modules_planned(node, configuration.modules@, now);
    let processes = processes_planned(node, configuration.xmip_processes@, now);
    assert forall|i: int| 0 <= i < plan_said(configuration, now).len() implies text::ends_in(
        (#[trigger] plan_said(configuration, now)[i]).evidence,
        UNBUILT@,
    ) by {
        if i == 0 {
            text::lemma_ends_in(
                text::decimal(modules_starting(configuration)) + " module(s), "@ + text::decimal(
                    processes_starting(configuration),
                ) + " process(es) validated and planned; not running"@,
                UNBUILT@,
            );
        } else if i <= modules.len() {
            let module = text::gathered(configuration.modules@, starting_module())[i - 1];
            assert(plan_said(configuration, now)[i] == module_planned(node, module, now));
            text::lemma_ends_in(
                "planned, not loaded ("@ + module.manifest.identity.version@ + ")"@,
                UNBUILT@,
            );
        } else {
            let process = text::gathered(
                configuration.xmip_processes@,
                starting_process(),
            )[i - 1 - modules.len()];
            assert(plan_said(configuration, now)[i] == process_planned(node, process, now));
            text::lemma_ends_in(
                "planned, not started; needs "@ + text::joined(
                    text::read(process.required_modules@),
                    ", "@,
                ),
                UNBUILT@,
            );
        }
    }
}

/// A node that is refused has one red record that says why: over everything
/// where the file cannot be read or does not parse, with the file and the error;
/// and over the node where its document is refused, with every error.
pub proof fn law_a_refusal_says_why(
    path: &str,
    found: Found,
    now: i64,
    records: Vec<LightRecord>,
    at: int,
)
    requires
        call_ensures(start, (path, found, now), records),
    ensures
        found matches Found::Unreadable(error) ==> {
            &&& records@.len() == 1
            &&& records@[0].scope@ == "xmip:///"@
            &&& records@[0].light == Light::Red
            &&& records@[0].evidence@ == "cannot read "@ + path@ + ": "@ + error@
            &&& records@[0].observed_unix_nanos == now
        },
        found matches Found::Unparsed(error) ==> {
            &&& records@.len() == 1
            &&& records@[0].scope@ == "xmip:///"@
            &&& records@[0].light == Light::Red
            &&& records@[0].evidence@ == path@ + " does not parse: "@ + error@
            &&& records@[0].observed_unix_nanos == now
        },
        found matches Found::Parsed { configuration, document } ==> {
            let errors = refusal(document);
            errors.len() > 0 ==> {
                &&& records@.len() == 1
                &&& records@[0].scope@ == "xmip:///"@ + configuration.node_name@
                &&& records@[0].light == Light::Red
                &&& records@[0].observed_unix_nanos == now
                &&& 0 <= at < errors.len() ==> text::holds(records@[0].evidence@, errors[at])
            }
        },
{
    let said = observe::readings(records@);
    assert(said.len() == records@.len());
    if records@.len() > 0 {
        assert(said[0] == records@[0]@);
    }
    if let Found::Parsed { configuration, document } = found {
        let errors = refusal(document);
        if errors.len() > 0 && 0 <= at < errors.len() {
            let all = text::joined(errors, "; "@);
            text::lemma_joined_holds(errors, "; "@, at);
            text::lemma_holds_within("configuration refused: "@, all, Seq::empty(), errors[at]);
            assert("configuration refused: "@ + all + Seq::<char>::empty()
                =~= "configuration refused: "@ + all);
        }
    }
}

/// What startup refuses in a document is every error that validating it finds,
/// and where the text does not parse, that.
pub proof fn law_what_is_refused_is_what_validating_finds(
    document: XmipConfigurationDocument,
    report: crate::execution_tree::StartupValidationReport,
    error: String,
)
    requires
        call_ensures(
            crate::execution_tree::validate_startup_configuration,
            (&document,),
            report,
        ),
    ensures
        refusal(Ok(document)) == text::read(report.errors@),
        refusal(Err(error)).len() == 1,
        text::holds(refusal(Err(error))[0], error@),
{
    let none = Seq::<char>::empty();
    assert("configuration parse failed: "@ + error@ =~= "configuration parse failed: "@ + error@
        + none);
    text::lemma_holds("configuration parse failed: "@, error@, none);
}

/// A node that was planned has a record over itself that counts the Modules and
/// the Processes that start, one beneath it for each Module that starts, with
/// the Module's version, and one for each Process that starts, with every module
/// it needs; there are no others, and all of them are of this moment.
pub proof fn law_a_plan_says_what_starts(
    path: &str,
    configuration: NodeConfiguration,
    document: Result<XmipConfigurationDocument, String>,
    now: i64,
    records: Vec<LightRecord>,
    at: int,
    needs: int,
)
    requires
        call_ensures(start, (path, Found::Parsed { configuration, document }, now), records),
        refusal(document).len() == 0,
    ensures
        ({
            let modules = text::total(
                configuration.modules@,
                |module: ModuleConfiguration| crate::execution_tree::once(module.start),
            );
            let processes = text::total(
                configuration.xmip_processes@,
                |process: XmipProcessConfiguration| crate::execution_tree::once(process.start),
            );
            let node = "xmip:///"@ + configuration.node_name@;
            &&& records@.len() == 1 + modules + processes
            &&& records@[0].scope@ == node
            &&& text::holds(records@[0].evidence@, text::decimal(modules) + " module(s), "@)
            &&& text::holds(records@[0].evidence@, text::decimal(processes) + " process(es)"@)
            &&& 0 <= at < records@.len() ==> records@[at].observed_unix_nanos == now
            &&& 0 <= at < configuration.modules@.len() && configuration.modules@[at].start ==> told(
                records@,
                node + "/module/"@ + configuration.modules@[at].name@,
                "("@ + configuration.modules@[at].manifest.identity.version@ + ")"@,
            )
            &&& 0 <= at < configuration.xmip_processes@.len()
                && configuration.xmip_processes@[at].start && 0 <= needs
                < configuration.xmip_processes@[at].required_modules@.len() ==> told(
                records@,
                node + "/process/"@ + configuration.xmip_processes@[at].name@,
                configuration.xmip_processes@[at].required_modules@[needs]@,
            )
            &&& 0 <= at < configuration.xmip_processes@.len()
                && configuration.xmip_processes@[at].start ==> told(
                records@,
                node + "/process/"@ + configuration.xmip_processes@[at].name@,
                Seq::empty(),
            )
        }),
{
    assert(observe::readings(records@) == plan_said(configuration, now));
    lemma_plan_node(records@, configuration, now);
    lemma_plan_moment(records@, configuration, now, at);
    lemma_plan_module(records@, configuration, now, at);
    lemma_plan_process(records@, configuration, now, at, needs);
}

proof fn lemma_plan_node(records: Seq<LightRecord>, configuration: NodeConfiguration, now: i64)
    requires
        observe::readings(records) == plan_said(configuration, now),
    ensures
        ({
            let modules = text::total(
                configuration.modules@,
                |module: ModuleConfiguration| crate::execution_tree::once(module.start),
            );
            let processes = text::total(
                configuration.xmip_processes@,
                |process: XmipProcessConfiguration| crate::execution_tree::once(process.start),
            );
            &&& records.len() == 1 + modules + processes
            &&& records[0].scope@ == "xmip:///"@ + configuration.node_name@
            &&& text::holds(records[0].evidence@, text::decimal(modules) + " module(s), "@)
            &&& text::holds(records[0].evidence@, text::decimal(processes) + " process(es)"@)
        }),
{
    let said = observe::readings(records);
    let none = Seq::<char>::empty();
    assert(said.len() == records.len());
    text::law_gathered_counts_what_is_said(
        configuration.modules@,
        starting_module(),
        |module: ModuleConfiguration| crate::execution_tree::once(module.start),
    );
    text::law_gathered_counts_what_is_said(
        configuration.xmip_processes@,
        starting_process(),
        |process: XmipProcessConfiguration| crate::execution_tree::once(process.start),
    );
    lemma_plan(configuration, now);
    assert(said[0] == records[0]@);
    let m = text::decimal(modules_starting(configuration));
    let p = text::decimal(processes_starting(configuration));
    let rest = " validated and planned; not running"@;
    reveal_strlit(" process(es) validated and planned; not running");
    reveal_strlit(" process(es)");
    reveal_strlit(" validated and planned; not running");
    assert(" process(es) validated and planned; not running"@ =~= " process(es)"@ + rest);
    let evidence = records[0].evidence@;
    assert(evidence =~= none + (m + " module(s), "@) + (p + " process(es)"@ + rest + UNBUILT@));
    text::lemma_holds(none, m + " module(s), "@, p + " process(es)"@ + rest + UNBUILT@);
    assert(evidence =~= (m + " module(s), "@) + (p + " process(es)"@) + (rest + UNBUILT@));
    text::lemma_holds(m + " module(s), "@, p + " process(es)"@, rest + UNBUILT@);
}

proof fn lemma_plan_moment(
    records: Seq<LightRecord>,
    configuration: NodeConfiguration,
    now: i64,
    at: int,
)
    requires
        observe::readings(records) == plan_said(configuration, now),
    ensures
        0 <= at < records.len() ==> records[at].observed_unix_nanos == now,
{
    let said = observe::readings(records);
    let node = node_scope(configuration);
    let modules = modules_planned(node, configuration.modules@, now);
    let processes = processes_planned(node, configuration.xmip_processes@, now);
    assert(said.len() == records.len());
    if 0 <= at < records.len() {
        assert(said[at] == records[at]@);
        if 0 < at <= modules.len() {
            assert(said[at] == modules[at - 1]);
        } else if at > modules.len() {
            assert(said[at] == processes[at - 1 - modules.len()]);
        }
    }
}

proof fn lemma_plan_module(
    records: Seq<LightRecord>,
    configuration: NodeConfiguration,
    now: i64,
    at: int,
)
    requires
        observe::readings(records) == plan_said(configuration, now),
    ensures
        0 <= at < configuration.modules@.len() && configuration.modules@[at].start ==> told(
            records,
            "xmip:///"@ + configuration.node_name@ + "/module/"@ + configuration.modules@[at].name@,
            "("@ + configuration.modules@[at].manifest.identity.version@ + ")"@,
        ),
{
    let said = observe::readings(records);
    let node = node_scope(configuration);
    let modules = modules_planned(node, configuration.modules@, now);
    assert(said.len() == records.len());
    if 0 <= at < configuration.modules@.len() && configuration.modules@[at].start {
        let module = configuration.modules@[at];
        let kept = text::gathered(configuration.modules@, starting_module());
        assert(starting_module()(module)[0] == module);
        text::law_gathered_holds_what_is_said(configuration.modules@, starting_module(), module);
        let k = choose|k: int| 0 <= k < kept.len() && kept[k] == module;
        assert(modules[k] == module_planned(node, module, now));
        assert(said[1 + k] == modules[k]);
        assert(said[1 + k] == records[1 + k]@);
        let version = "("@ + module.manifest.identity.version@ + ")"@;
        reveal_strlit("planned, not loaded (");
        reveal_strlit("planned, not loaded ");
        reveal_strlit("(");
        assert("planned, not loaded ("@ =~= "planned, not loaded "@ + "("@);
        assert(records[1 + k].evidence@ =~= "planned, not loaded "@ + version + UNBUILT@);
        text::lemma_holds("planned, not loaded "@, version, UNBUILT@);
        assert(told(records, node + "/module/"@ + module.name@, version));
    }
}

proof fn lemma_plan_process(
    records: Seq<LightRecord>,
    configuration: NodeConfiguration,
    now: i64,
    at: int,
    needs: int,
)
    requires
        observe::readings(records) == plan_said(configuration, now),
    ensures
        0 <= at < configuration.xmip_processes@.len() && configuration.xmip_processes@[at].start
            ==> {
            let process = configuration.xmip_processes@[at];
            let scope = "xmip:///"@ + configuration.node_name@ + "/process/"@ + process.name@;
            &&& told(records, scope, Seq::empty())
            &&& 0 <= needs < process.required_modules@.len() ==> told(
                records,
                scope,
                process.required_modules@[needs]@,
            )
        },
{
    let said = observe::readings(records);
    let node = node_scope(configuration);
    let none = Seq::<char>::empty();
    let modules = modules_planned(node, configuration.modules@, now);
    let processes = processes_planned(node, configuration.xmip_processes@, now);
    assert(said.len() == records.len());
    if 0 <= at < configuration.xmip_processes@.len() && configuration.xmip_processes@[at].start {
        let process = configuration.xmip_processes@[at];
        let kept = text::gathered(configuration.xmip_processes@, starting_process());
        assert(starting_process()(process)[0] == process);
        text::law_gathered_holds_what_is_said(
            configuration.xmip_processes@,
            starting_process(),
            process,
        );
        let k = choose|k: int| 0 <= k < kept.len() && kept[k] == process;
        assert(processes[k] == process_planned(node, process, now));
        let place = 1 + modules.len() + k;
        assert(said[place] == processes[k]);
        assert(said[place] == records[place]@);
        let scope = node + "/process/"@ + process.name@;
        let all = text::joined(text::read(process.required_modules@), ", "@);
        let opening = "planned, not started; needs "@;
        text::lemma_holds(records[place].evidence@, none, none);
        assert(records[place].evidence@ + none + none =~= records[place].evidence@);
        assert(told(records, scope, none));
        if 0 <= needs < process.required_modules@.len() {
            let read = text::read(process.required_modules@);
            assert(read[needs] == process.required_modules@[needs]@);
            text::lemma_joined_holds(read, ", "@, needs);
            text::lemma_holds_within(opening, all, UNBUILT@, read[needs]);
            assert(told(records, scope, read[needs]));
        }
    }
}

/// Some record is of this scope, and its evidence holds this.
pub open spec fn told(records: Seq<LightRecord>, scope: Seq<char>, part: Seq<char>) -> bool {
    exists|i: int|
        0 <= i < records.len() && (#[trigger] records[i]).scope@ == scope && text::holds(
            records[i].evidence@,
            part,
        )
}

/// A moment is the nanoseconds that were counted wherever they fit, zero before
/// the epoch and the last moment there is beyond it; it never goes back where
/// the clock does not.
pub proof fn law_a_moment_is_what_the_clock_counted(
    earlier: u128,
    later: u128,
    first: i64,
    second: i64,
    before: i64,
)
    requires
        call_ensures(now_unix_nanos, (Some(earlier),), first),
        call_ensures(now_unix_nanos, (Some(later),), second),
        call_ensures(now_unix_nanos, (None::<u128>,), before),
    ensures
        earlier <= i64::MAX ==> first == earlier,
        earlier > i64::MAX ==> first == i64::MAX,
        earlier <= later ==> first <= second,
        before == 0,
{
}

/// A node was started unless something in it is red; and a runtime without a
/// node is neither red nor green, and says so over everything.
pub proof fn law_only_red_is_a_failure(
    worst: Option<Light>,
    status: Status,
    now: i64,
    own: LightRecord,
)
    requires
        call_ensures(started, (worst,), status),
        call_ensures(unconfigured, (now,), own),
    ensures
        status == Status::Invalid <==> worst == Some(Light::Red),
        status == Status::Okay <==> worst != Some(Light::Red),
        own.scope@ == "xmip:///"@,
        own.light == Light::Yellow,
        own.observed_unix_nanos == now,
{
    assert(own@.scope == own.scope@);
}

/// A configuration is good exactly where nothing is wrong with it, and what is
/// said of one that is not has every problem in it, where there is room for all
/// of them.
pub proof fn law_a_validation_says_every_problem(
    validation: Validation,
    problems: Seq<String>,
    cap: usize,
    said: Seq<char>,
    at: int,
)
    requires
        validates(validation, problems, cap),
        validation.report.length <= cap,
        vstd::utf8::encode_utf8(said) == validation.report.bytes@,
    ensures
        validation.status == Status::Okay <==> problems.len() == 0,
        validation.status == Status::Invalid <==> problems.len() > 0,
        0 <= at < problems.len() ==> text::holds(said, problems[at]@),
        problems.len() == 0 ==> said.len() == 0,
{
    let all = text::joined(text::read(problems), "\n"@);
    vstd::utf8::encode_utf8_decode_utf8(said);
    vstd::utf8::encode_utf8_decode_utf8(all);
    assert(said == all);
    if 0 <= at < problems.len() {
        assert(text::read(problems)[at] == problems[at]@);
        text::lemma_joined_holds(text::read(problems), "\n"@, at);
    }
}

/// A surface starts a node from the path it names, where that is text; and a
/// configuration it hands over is validated by its owner, and good exactly where
/// the owner finds nothing wrong with it.
pub proof fn law_a_surface_starts_and_validates_what_it_names<
    'a,
    F: Fn(&'a str) -> Vec<String>,
>(
    named: Option<&'a [u8]>,
    cap: usize,
    validate: F,
    owner: spec_fn(Seq<char>) -> Seq<Seq<char>>,
    path: Result<&'a str, Status>,
    r: Result<Validation, Status>,
)
    requires
        forall|asked: &'a str, problems: Vec<String>| #[trigger]
            validate.ensures((asked,), problems) ==> text::read(problems@) == owner(asked@),
        call_ensures(xmip_start_v1, (named,), path),
        call_ensures(xmip_validate_v1::<F>, (named, cap, validate), r),
    ensures
        match boundary::reading(named) {
            Some(asked) => {
                &&& path is Ok && path->Ok_0@ == asked
                &&& r is Ok
                &&& r->Ok_0.status == Status::Okay <==> owner(asked).len() == 0
                &&& r->Ok_0.status == Status::Invalid <==> owner(asked).len() > 0
                &&& r->Ok_0.report.length == vstd::utf8::encode_utf8(
                    text::joined(owner(asked), "\n"@),
                ).len()
            },
            None => {
                &&& path is Err && path->Err_0 == Status::Malformed
                &&& r is Err && r->Err_0 == Status::Malformed
            },
        },
{
    if let Some(asked) = boundary::reading(named) {
        let problems = choose|problems: Vec<String>| #[trigger]
            rule::says(validate, asked, problems) && validates(r->Ok_0, problems@, cap);
        assert(text::read(problems@) == owner(asked));
        assert(text::read(problems@).len() == problems@.len());
    }
}

} // verus!
