//! The Xmip Service: the nine phases a node starts in, and the plan the first
//! three of them produce.

use vstd::prelude::*;
use vstd::string::*;

use crate::configure::XmipConfigurationDocument;
use crate::execution_tree::{build_execution_tree, ExecutionTree, StartupValidationReport};
use crate::text;

verus! {

#[derive(Clone, Copy, Debug, PartialEq, Eq, Structural)]
pub enum XmipServiceState {
    Created,
    ConfigurationRead,
    ExecutionTreeBuilt,
    StartupValidated,
    ReadyToStartHostServices,
    Running,
    Failed,
}

#[derive(Clone, Copy, Debug, PartialEq, Eq, Structural)]
pub enum StartupPhase {
    ReadConfiguration,
    BuildExecutionTree,
    ValidateStartup,
    PlanHostServices,
    StartHostServices,
    LoadModules,
    RegisterCapabilities,
    VerifyExtensions,
    AcceptWork,
}

impl StartupPhase {
    /// The phase's name, as a report writes it.
    pub open spec fn name(self) -> Seq<char> {
        match self {
            StartupPhase::ReadConfiguration => "read-configuration"@,
            StartupPhase::BuildExecutionTree => "build-execution-tree"@,
            StartupPhase::ValidateStartup => "validate-startup"@,
            StartupPhase::PlanHostServices => "plan-host-services"@,
            StartupPhase::StartHostServices => "start-host-services"@,
            StartupPhase::LoadModules => "load-modules"@,
            StartupPhase::RegisterCapabilities => "register-capabilities"@,
            StartupPhase::VerifyExtensions => "verify-extensions"@,
            StartupPhase::AcceptWork => "accept-work"@,
        }
    }

    pub fn id(&self) -> (r: &'static str)
        ensures
            r@ == self.name(),
    {
        match self {
            StartupPhase::ReadConfiguration => "read-configuration",
            StartupPhase::BuildExecutionTree => "build-execution-tree",
            StartupPhase::ValidateStartup => "validate-startup",
            StartupPhase::PlanHostServices => "plan-host-services",
            StartupPhase::StartHostServices => "start-host-services",
            StartupPhase::LoadModules => "load-modules",
            StartupPhase::RegisterCapabilities => "register-capabilities",
            StartupPhase::VerifyExtensions => "verify-extensions",
            StartupPhase::AcceptWork => "accept-work",
        }
    }
}

/// The phases, in the order a node goes through them.
pub open spec fn phases() -> Seq<StartupPhase> {
    seq![
        StartupPhase::ReadConfiguration,
        StartupPhase::BuildExecutionTree,
        StartupPhase::ValidateStartup,
        StartupPhase::PlanHostServices,
        StartupPhase::StartHostServices,
        StartupPhase::LoadModules,
        StartupPhase::RegisterCapabilities,
        StartupPhase::VerifyExtensions,
        StartupPhase::AcceptWork,
    ]
}

#[derive(Clone, Debug)]
pub struct XmipServiceStartupPlan {
    pub state: XmipServiceState,
    pub phases: Vec<StartupPhase>,
    pub execution_tree: ExecutionTree,
    pub validation_report: StartupValidationReport,
}

/// Startup phases 1 to 3 over a node configuration: `parsed` is its text read
/// as the one document there is, or why it does not parse; the execution tree
/// is built from it and validated.
///
/// # Errors
/// The report, when the text does not parse or the document does not
/// validate.
pub fn plan_startup_from_toml(parsed: Result<XmipConfigurationDocument, String>) -> (r: Result<
    XmipServiceStartupPlan,
    StartupValidationReport,
>)
    ensures
        match (parsed, r) {
            (Ok(document), Ok(plan)) => {
                &&& crate::execution_tree::startup_errors(document).len() == 0
                &&& plan.state == XmipServiceState::ReadyToStartHostServices
                &&& plan.phases@ == phases()
                &&& crate::execution_tree::starts(document, plan.execution_tree)
                &&& plan.validation_report.errors@.len() == 0
                &&& text::read(plan.validation_report.warnings@)
                    == crate::execution_tree::startup_warnings(document)
            },
            (Ok(document), Err(report)) => {
                &&& crate::execution_tree::startup_errors(document).len() > 0
                &&& text::read(report.errors@) == crate::execution_tree::startup_errors(document)
                &&& text::read(report.warnings@) == crate::execution_tree::startup_warnings(
                    document,
                )
            },
            (Err(_), Ok(_)) => false,
            (Err(error), Err(report)) => {
                &&& text::read(report.errors@) == seq!["configuration parse failed: "@ + error@]
                &&& report.warnings@.len() == 0
            },
        },
{
    let document = match parsed {
        Ok(document) => document,
        Err(error) => {
            let errors = vec!["configuration parse failed: ".to_string().concat(error.as_str())];
            assert(text::read(errors@) =~= seq!["configuration parse failed: "@ + error@]);
            return Err(StartupValidationReport { errors, warnings: Vec::new() });
        },
    };
    match build_execution_tree(document) {
        Ok((execution_tree, validation_report)) => Ok(
            XmipServiceStartupPlan {
                state: XmipServiceState::ReadyToStartHostServices,
                phases: startup_phases(),
                execution_tree,
                validation_report,
            },
        ),
        Err(report) => Err(report),
    }
}

pub fn startup_phases() -> (r: Vec<StartupPhase>)
    ensures
        r@ == phases(),
{
    vec![
        StartupPhase::ReadConfiguration,
        StartupPhase::BuildExecutionTree,
        StartupPhase::ValidateStartup,
        StartupPhase::PlanHostServices,
        StartupPhase::StartHostServices,
        StartupPhase::LoadModules,
        StartupPhase::RegisterCapabilities,
        StartupPhase::VerifyExtensions,
        StartupPhase::AcceptWork,
    ]
}

pub fn startup_sequence() -> (r: Vec<&'static str>)
    ensures
        r@.len() == phases().len(),
        forall|i: int| 0 <= i < phases().len() ==> (#[trigger] r@[i])@ == phases()[i].name(),
{
    let all = startup_phases();
    let mut names: Vec<&'static str> = Vec::new();
    let mut at: usize = 0;
    while at < all.len()
        invariant
            all@ == phases(),
            at <= all@.len(),
            names@.len() == at,
            forall|i: int| 0 <= i < at ==> (#[trigger] names@[i])@ == phases()[i].name(),
        decreases all@.len() - at,
    {
        names.push(all[at].id());
        at += 1;
    }
    names
}

/// Startup reads the configuration first and accepts work last, goes through
/// every phase, and through none of them twice; no two phases share a name.
pub proof fn law_startup_goes_through_every_phase_once()
    ensures
        phases().first() == StartupPhase::ReadConfiguration,
        phases().last() == StartupPhase::AcceptWork,
        forall|phase: StartupPhase| #[trigger] phases().contains(phase),
        phases().no_duplicates(),
        forall|one: StartupPhase, other: StartupPhase|
            #[trigger] one.name() == #[trigger] other.name() ==> one == other,
{
    assert forall|phase: StartupPhase| #[trigger] phases().contains(phase) by {
        let all = phases();
        match phase {
            StartupPhase::ReadConfiguration => assert(all[0] == phase),
            StartupPhase::BuildExecutionTree => assert(all[1] == phase),
            StartupPhase::ValidateStartup => assert(all[2] == phase),
            StartupPhase::PlanHostServices => assert(all[3] == phase),
            StartupPhase::StartHostServices => assert(all[4] == phase),
            StartupPhase::LoadModules => assert(all[5] == phase),
            StartupPhase::RegisterCapabilities => assert(all[6] == phase),
            StartupPhase::VerifyExtensions => assert(all[7] == phase),
            StartupPhase::AcceptWork => assert(all[8] == phase),
        }
    }
    reveal_strlit("read-configuration");
    reveal_strlit("build-execution-tree");
    reveal_strlit("validate-startup");
    reveal_strlit("plan-host-services");
    reveal_strlit("start-host-services");
    reveal_strlit("load-modules");
    reveal_strlit("register-capabilities");
    reveal_strlit("verify-extensions");
    reveal_strlit("accept-work");
    assert forall|one: StartupPhase, other: StartupPhase|
        #[trigger] one.name() == #[trigger] other.name() implies one == other by {
        assert(one.name().len() == other.name().len());
        assert(one.name()[0] == other.name()[0]);
    }
}

/// Startup plans exactly what parses and builds: the tree and the report are the
/// ones that building gives, and the plan is ready to start Host Services. What
/// does not parse is told in the one error that says why; what does not build,
/// in the errors that building gives.
pub proof fn law_startup_plans_what_builds(
    parsed: Result<XmipConfigurationDocument, String>,
    r: Result<XmipServiceStartupPlan, StartupValidationReport>,
    built: Result<(ExecutionTree, StartupValidationReport), StartupValidationReport>,
)
    requires
        call_ensures(plan_startup_from_toml, (parsed,), r),
        parsed matches Ok(document) ==> call_ensures(build_execution_tree, (document,), built),
    ensures
        r is Ok <==> parsed is Ok && built is Ok,
        r matches Ok(plan) ==> {
            &&& plan.state == XmipServiceState::ReadyToStartHostServices
            &&& plan.validation_report.errors@.len() == 0
            &&& built matches Ok((tree, report))
            &&& plan.execution_tree.service == tree.service
            &&& plan.execution_tree.modules_to_start@ == tree.modules_to_start@
            &&& plan.execution_tree.xmip_processes_to_start@ == tree.xmip_processes_to_start@
            &&& plan.execution_tree.receive_locations_to_start@ == tree.receive_locations_to_start@
            &&& plan.execution_tree.send_locations_to_start@ == tree.send_locations_to_start@
            &&& plan.execution_tree.verified_extensions@ == tree.verified_extensions@
            &&& text::read(plan.validation_report.warnings@) == text::read(report.warnings@)
        },
        parsed matches Err(error) ==> (r matches Err(report) && report.errors@.len() == 1
            && report.errors@[0]@ == "configuration parse failed: "@ + error@
            && report.warnings@.len() == 0),
        parsed is Ok ==> (r matches Err(report) ==> (built matches Err(own) && text::read(
            report.errors@,
        ) == text::read(own.errors@) && text::read(report.warnings@) == text::read(own.warnings@))),
{
    if let Err(error) = parsed {
        let report = r->Err_0;
        assert(text::read(report.errors@).len() == report.errors@.len());
        assert(text::read(report.errors@)[0] == report.errors@[0]@);
    }
}

/// The phases come in the order in which each can rest on the one before: the
/// tree is built from what was read, validated before anything is planned,
/// planned before anything is started, and work is accepted last of all.
pub proof fn law_each_phase_rests_on_the_one_before(
    all: Vec<StartupPhase>,
    names: Vec<&'static str>,
    at: int,
    name: &'static str,
)
    requires
        call_ensures(startup_phases, (), all),
        call_ensures(startup_sequence, (), names),
        0 <= at < all@.len() ==> call_ensures(StartupPhase::id, (&all@[at],), name),
    ensures
        all@.len() == 9,
        all@.index_of(StartupPhase::ReadConfiguration) < all@.index_of(
            StartupPhase::BuildExecutionTree,
        ),
        all@.index_of(StartupPhase::BuildExecutionTree) < all@.index_of(
            StartupPhase::ValidateStartup,
        ),
        all@.index_of(StartupPhase::ValidateStartup) < all@.index_of(
            StartupPhase::PlanHostServices,
        ),
        all@.index_of(StartupPhase::PlanHostServices) < all@.index_of(
            StartupPhase::StartHostServices,
        ),
        all@.index_of(StartupPhase::StartHostServices) < all@.index_of(StartupPhase::LoadModules),
        all@.index_of(StartupPhase::LoadModules) < all@.index_of(
            StartupPhase::RegisterCapabilities,
        ),
        all@.index_of(StartupPhase::RegisterCapabilities) < all@.index_of(
            StartupPhase::VerifyExtensions,
        ),
        all@.index_of(StartupPhase::VerifyExtensions) < all@.index_of(StartupPhase::AcceptWork),
        names@.len() == all@.len(),
        0 <= at < all@.len() ==> names@[at]@ == name@,
{
    law_startup_goes_through_every_phase_once();
    assert(all@[0] == StartupPhase::ReadConfiguration);
    assert(all@[1] == StartupPhase::BuildExecutionTree);
    assert(all@[2] == StartupPhase::ValidateStartup);
    assert(all@[3] == StartupPhase::PlanHostServices);
    assert(all@[4] == StartupPhase::StartHostServices);
    assert(all@[5] == StartupPhase::LoadModules);
    assert(all@[6] == StartupPhase::RegisterCapabilities);
    assert(all@[7] == StartupPhase::VerifyExtensions);
    assert(all@[8] == StartupPhase::AcceptWork);
    lemma_only_there(all@, 0);
    lemma_only_there(all@, 1);
    lemma_only_there(all@, 2);
    lemma_only_there(all@, 3);
    lemma_only_there(all@, 4);
    lemma_only_there(all@, 5);
    lemma_only_there(all@, 6);
    lemma_only_there(all@, 7);
    lemma_only_there(all@, 8);
}

proof fn lemma_only_there(all: Seq<StartupPhase>, at: int)
    requires
        all.no_duplicates(),
        0 <= at < all.len(),
    ensures
        all.index_of(all[at]) == at,
{
    let i = all.index_of(all[at]);
    assert(all.contains(all[at]));
    assert(0 <= i < all.len() && all[i] == all[at]);
}

/// Every phase is reported by its own name.
pub proof fn law_every_phase_has_its_name(phase: StartupPhase, name: &'static str)
    requires
        call_ensures(StartupPhase::id, (&phase,), name),
    ensures
        phase == StartupPhase::ReadConfiguration ==> name@ == "read-configuration"@,
        phase == StartupPhase::BuildExecutionTree ==> name@ == "build-execution-tree"@,
        phase == StartupPhase::ValidateStartup ==> name@ == "validate-startup"@,
        phase == StartupPhase::PlanHostServices ==> name@ == "plan-host-services"@,
        phase == StartupPhase::StartHostServices ==> name@ == "start-host-services"@,
        phase == StartupPhase::LoadModules ==> name@ == "load-modules"@,
        phase == StartupPhase::RegisterCapabilities ==> name@ == "register-capabilities"@,
        phase == StartupPhase::VerifyExtensions ==> name@ == "verify-extensions"@,
        phase == StartupPhase::AcceptWork ==> name@ == "accept-work"@,
{
}

} // verus!
