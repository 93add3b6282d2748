//! A Host Service: the registered, supervised thing a Module runs in.

use vstd::prelude::*;
use vstd::string::*;

use crate::abi::{ModuleDescriptor, ModuleManifest, XMIP_ENTRYPOINT};
use crate::planning::{HostBitness, HostServicePlan};
use crate::text;

verus! {

/// The registered, supervised thing. The System Process it runs as is the Host
/// Process; this is the service.
#[derive(Clone, Debug)]
pub struct HostService {
    pub plan: HostServicePlan,
    pub state: HostServiceState,
}

#[derive(Clone, Debug, PartialEq, Eq)]
pub enum HostServiceState {
    Planned,
    Starting,
    Running,
    Stopped,
    Failed(String),
}

impl HostService {
    pub fn from_manifest(manifest: ModuleManifest, trusted: bool) -> (r: Self)
        ensures
            r.plan.host_type@ == manifest.identity.name@ + "-host"@,
            r.plan.trusted == trusted,
            r.plan.bitness == HostBitness::Native,
            r.plan.modules@ == seq![manifest],
            r.plan.verified_extensions@.len() == 0,
            r.state == HostServiceState::Planned,
    {
        let host_type = manifest.identity.name.clone().concat("-host");
        HostService {
            plan: HostServicePlan {
                host_type,
                trusted,
                bitness: HostBitness::Native,
                modules: vec![manifest],
                verified_extensions: Vec::new(),
            },
            state: HostServiceState::Planned,
        }
    }

    pub fn start(&mut self)
        ensures
            final(self).plan == old(self).plan,
            final(self).state == HostServiceState::Running,
    {
        self.state = HostServiceState::Starting;
        self.state = HostServiceState::Running;
    }

    pub fn stop(&mut self)
        ensures
            final(self).plan == old(self).plan,
            final(self).state == HostServiceState::Stopped,
    {
        self.state = HostServiceState::Stopped;
    }
}

/// A Module to be loaded on the first call that needs it.
#[derive(Clone, Debug)]
pub struct DynamicModuleRequest {
    pub manifest: ModuleManifest,
    pub resolved_library_path: String,
    pub descriptor: ModuleDescriptor,
}

#[derive(Clone, Debug, PartialEq, Eq)]
pub struct VerifiedDynamicModule {
    pub module_name: String,
    pub resolved_library_path: String,
    pub entrypoint_symbol: String,
}

/// The symbol a Module is entered by: the one its manifest declares, else the
/// one every conforming module exports.
pub open spec fn entered_by(manifest: ModuleManifest) -> Seq<char> {
    match manifest.entrypoint.symbol {
        Some(symbol) => symbol@,
        None => XMIP_ENTRYPOINT@,
    }
}

/// The verification a late load performs. `validated` is what the boundary's
/// own check of the descriptor came to.
///
/// # Errors
///
/// A request with no library path, a descriptor the host refuses, or a manifest
/// whose declared symbol is blank. The refusal reaches the first caller, so it
/// names what to fix rather than which call failed.
pub fn verify_dynamic_module(
    validated: Result<(), String>,
    request: &DynamicModuleRequest,
) -> (r: Result<VerifiedDynamicModule, String>)
    ensures
        (r is Ok) == (!text::blank(request.resolved_library_path@) && validated is Ok
            && !text::blank(entered_by(request.manifest))),
        r matches Ok(verified) ==> verified.module_name == request.manifest.identity.name
            && verified.resolved_library_path == request.resolved_library_path
            && verified.entrypoint_symbol@ == entered_by(request.manifest),
        r matches Err(said) ==> said@ == (if text::blank(request.resolved_library_path@) {
            "dynamic module request requires a resolved library path"@
        } else if validated is Err {
            validated->Err_0@
        } else {
            "dynamic module request requires an exported symbol"@
        }),
{
    if text::is_blank(request.resolved_library_path.as_str()) {
        return Err("dynamic module request requires a resolved library path".to_string());
    }
    match validated {
        Ok(()) => {},
        Err(refusal) => return Err(refusal),
    }
    let entrypoint_symbol = match &request.manifest.entrypoint.symbol {
        Some(symbol) => symbol.clone(),
        None => XMIP_ENTRYPOINT.to_string(),
    };
    if text::is_blank(entrypoint_symbol.as_str()) {
        return Err("dynamic module request requires an exported symbol".to_string());
    }
    Ok(
        VerifiedDynamicModule {
            module_name: request.manifest.identity.name.clone(),
            resolved_library_path: request.resolved_library_path.clone(),
            entrypoint_symbol,
        },
    )
}

/// A Module is never entered by a blank symbol, so that one which declares none
/// is entered by the symbol every conforming module exports.
pub proof fn law_the_default_symbol_is_not_blank(manifest: ModuleManifest)
    requires
        manifest.entrypoint.symbol is None,
    ensures
        !text::blank(entered_by(manifest)),
{
    reveal_strlit("xmip_create_module_v1");
    assert(!text::white_space(entered_by(manifest)[0]));
}

/// A late load is verified exactly where there is a path that says something,
/// the descriptor is well formed, and the symbol it is entered by, which is the
/// declared one or else the one every module exports, says something. What is
/// verified is the module, the path and the symbol that were asked for.
pub proof fn law_a_late_load_is_what_was_asked_for(
    validated: Result<(), String>,
    request: DynamicModuleRequest,
    r: Result<VerifiedDynamicModule, String>,
)
    requires
        call_ensures(verify_dynamic_module, (validated, &request), r),
    ensures
        r is Ok <==> !text::blank(request.resolved_library_path@) && validated is Ok && (
        request.manifest.entrypoint.symbol matches Some(symbol) ==> !text::blank(symbol@)),
        r matches Ok(verified) ==> {
            &&& verified.module_name@ == request.manifest.identity.name@
            &&& verified.resolved_library_path@ == request.resolved_library_path@
            &&& request.manifest.entrypoint.symbol matches Some(symbol)
                ==> verified.entrypoint_symbol@ == symbol@
            &&& request.manifest.entrypoint.symbol is None ==> verified.entrypoint_symbol@
                == "xmip_create_module_v1"@
        },
        text::blank(request.resolved_library_path@) ==> (r matches Err(said) && said@
            == "dynamic module request requires a resolved library path"@),
        !text::blank(request.resolved_library_path@) ==> (validated matches Err(refusal) ==> (
        r matches Err(said) && said@ == refusal@)),
        !text::blank(request.resolved_library_path@) && validated is Ok ==> (r matches Err(said)
            ==> said@ == "dynamic module request requires an exported symbol"@),
{
    if request.manifest.entrypoint.symbol is None {
        law_the_default_symbol_is_not_blank(request.manifest);
    }
}

/// A Host Service made of one Module is named for it and holds it and nothing
/// else, trusted as it was asked to be, and is planned, not running.
pub proof fn law_a_host_service_holds_its_module(
    manifest: ModuleManifest,
    trusted: bool,
    service: HostService,
)
    requires
        call_ensures(HostService::from_manifest, (manifest, trusted), service),
    ensures
        service.plan.host_type@ == manifest.identity.name@ + "-host"@,
        service.plan.trusted == trusted,
        service.plan.bitness == HostBitness::Native,
        service.plan.modules@.len() == 1,
        service.plan.modules@[0] == manifest,
        service.plan.verified_extensions@.len() == 0,
        service.state == HostServiceState::Planned,
{
}

/// A Host Service that is started runs and one that is stopped does not; what it
/// was planned for stays either way.
pub proof fn law_starting_and_stopping_keep_the_plan(
    one: &mut HostService,
    other: &mut HostService,
)
    requires
        call_ensures(HostService::start, (one,), ()),
        call_ensures(HostService::stop, (other,), ()),
    ensures
        final(one).state == HostServiceState::Running,
        final(one).plan == old(one).plan,
        final(other).state == HostServiceState::Stopped,
        final(other).plan == old(other).plan,
{
}

} // verus!
