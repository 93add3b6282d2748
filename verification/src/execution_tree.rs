//! Startup phases 2 and 3: build the execution tree from the node's
//! configuration document and validate it.
//!
//! The tree holds the document's own types, in the document's words, plus the
//! one thing only the runtime knows: which extensions it verified.

use vstd::prelude::*;
use vstd::string::*;

use crate::abi::ExtensionManifest;
use crate::configure::{
    ConfiguredLocation, ModuleConfiguration, ServiceConfiguration, XmipConfigurationDocument,
    XmipProcessConfiguration, XmipSubprocessConfiguration,
};
use crate::text;

verus! {

/// What a node starts, taken from its configuration document.
#[derive(Clone, Debug, PartialEq, Eq)]
pub struct ExecutionTree {
    pub service: ServiceConfiguration,
    pub modules_to_start: Vec<ModuleConfiguration>,
    pub xmip_processes_to_start: Vec<XmipProcessConfiguration>,
    pub receive_locations_to_start: Vec<ConfiguredLocation>,
    pub send_locations_to_start: Vec<ConfiguredLocation>,
    pub verified_extensions: Vec<VerifiedExtensionNode>,
}

/// An extension the runtime checked at startup, and whether it loaded it.
#[derive(Clone, Debug, PartialEq, Eq)]
pub struct VerifiedExtensionNode {
    pub name: String,
    pub version: String,
    pub loaded_during_startup: bool,
}

#[derive(Clone, Debug, PartialEq, Eq)]
pub struct StartupValidationReport {
    pub errors: Vec<String>,
    pub warnings: Vec<String>,
}

impl StartupValidationReport {
    #[must_use]
    pub fn is_valid(&self) -> (r: bool)
        ensures
            r == (self.errors@.len() == 0),
    {
        self.errors.is_empty()
    }
}

/// Some module of the document is called `name`.
pub open spec fn configured(modules: Seq<ModuleConfiguration>, name: Seq<char>) -> bool {
    exists|i: int| 0 <= i < modules.len() && #[trigger] modules[i].name@ == name
}

/// Some module of the document is called `name` and starts with the node.
pub open spec fn started(modules: Seq<ModuleConfiguration>, name: Seq<char>) -> bool {
    exists|i: int|
        0 <= i < modules.len() && #[trigger] modules[i].name@ == name && modules[i].start
}

/// The extensions an Xmip Process brings: its own, then each Subprocess's.
pub open spec fn process_extensions(process: XmipProcessConfiguration) -> Seq<ExtensionManifest> {
    process.extensions@ + text::gathered(
        process.xmip_subprocesses@,
        |subprocess: XmipSubprocessConfiguration| subprocess.extensions@,
    )
}

/// What the tree says of a checked extension: its name and version, and that
/// it was not loaded.
pub open spec fn checked(extension: ExtensionManifest) -> VerifiedExtensionNode {
    VerifiedExtensionNode {
        name: extension.name,
        version: extension.version,
        loaded_during_startup: false,
    }
}

/// The checked extensions of the processes, in the processes' order.
pub open spec fn checked_extensions(
    processes: Seq<XmipProcessConfiguration>,
) -> Seq<VerifiedExtensionNode> {
    text::gathered(
        processes,
        |process: XmipProcessConfiguration|
            process_extensions(process).map_values(
                |extension: ExtensionManifest| checked(extension),
            ),
    )
}

/// `tree` is what `document` starts, item for item, in the document's order.
pub open spec fn starts(document: XmipConfigurationDocument, tree: ExecutionTree) -> bool {
    let processes = document.xmip_processes@.filter(
        |process: XmipProcessConfiguration| process.start,
    );
    &&& tree.service == document.service
    &&& tree.modules_to_start@ == document.modules@.filter(
        |module: ModuleConfiguration| module.start,
    )
    &&& tree.xmip_processes_to_start@ == processes
    &&& tree.receive_locations_to_start@ == document.receive_locations@.filter(
        |location: ConfiguredLocation| location.start,
    )
    &&& tree.send_locations_to_start@ == document.send_locations@.filter(
        |location: ConfiguredLocation| location.start,
    )
    &&& tree.verified_extensions@ == checked_extensions(processes)
}

/// Validate the document and take from it what starts.
///
/// # Errors
/// The validation report, when it holds an error.
pub fn build_execution_tree(document: XmipConfigurationDocument) -> (r: Result<
    (ExecutionTree, StartupValidationReport),
    StartupValidationReport,
>)
    ensures
        match r {
            Ok((tree, report)) => {
                &&& startup_errors(document).len() == 0
                &&& starts(document, tree)
                &&& report.errors@.len() == 0
                &&& text::read(report.warnings@) == startup_warnings(document)
            },
            Err(report) => {
                &&& startup_errors(document).len() > 0
                &&& text::read(report.errors@) == startup_errors(document)
                &&& text::read(report.warnings@) == startup_warnings(document)
            },
        },
{
    let report = validate_startup_configuration(&document);
    assert(text::read(report.errors@).len() == report.errors@.len());
    if !report.is_valid() {
        return Err(report);
    }

    let modules_to_start = kept(
        document.modules,
        module_starts,
        Ghost(|module: ModuleConfiguration| module.start),
    );
    let xmip_processes_to_start = kept(
        document.xmip_processes,
        process_starts,
        Ghost(|process: XmipProcessConfiguration| process.start),
    );
    let verified_extensions = verified_extensions(&xmip_processes_to_start);

    Ok(
        (
            ExecutionTree {
                service: document.service,
                modules_to_start,
                xmip_processes_to_start,
                receive_locations_to_start: starting_locations(document.receive_locations),
                send_locations_to_start: starting_locations(document.send_locations),
                verified_extensions,
            },
            report,
        ),
    )
}

fn module_starts(module: &ModuleConfiguration) -> (b: bool)
    ensures
        b == module.start,
{
    module.start
}

fn process_starts(process: &XmipProcessConfiguration) -> (b: bool)
    ensures
        b == process.start,
{
    process.start
}

fn location_starts(location: &ConfiguredLocation) -> (b: bool)
    ensures
        b == location.start,
{
    location.start
}

/// The items `keep` keeps, in their order.
fn kept<T, F: Fn(&T) -> bool>(items: Vec<T>, keep: F, Ghost(wanted): Ghost<spec_fn(T) -> bool>) -> (r:
    Vec<T>)
    requires
        forall|item: &T| #[trigger] keep.requires((item,)),
        forall|item: &T, b: bool| #[trigger] keep.ensures((item,), b) ==> b == wanted(*item),
    ensures
        r@ == items@.filter(wanted),
{
    let ghost all = items@;
    let mut found: Vec<T> = Vec::new();
    for item in it: items
        invariant
            it.seq() == all,
            forall|item: &T| #[trigger] keep.requires((item,)),
            forall|item: &T, b: bool| #[trigger] keep.ensures((item,), b) ==> b == wanted(*item),
            found@ == all.take(it.index()).filter(wanted),
    {
        proof {
            assert(all.take(it.index() + 1).drop_last() =~= all.take(it.index()));
            reveal(Seq::filter);
        }
        if keep(&item) {
            found.push(item);
        }
    }
    assert(all.take(all.len() as int) =~= all);
    found
}

fn starting_locations(locations: Vec<ConfiguredLocation>) -> (r: Vec<ConfiguredLocation>)
    ensures
        r@ == locations@.filter(|location: ConfiguredLocation| location.start),
{
    kept(
        locations,
        location_starts,
        Ghost(|location: ConfiguredLocation| location.start),
    )
}

/// Every extension of the processes, checked and not loaded.
fn verified_extensions(processes: &Vec<XmipProcessConfiguration>) -> (r: Vec<
    VerifiedExtensionNode,
>)
    ensures
        r@ == checked_extensions(processes@),
{
    let ghost checks = |extension: ExtensionManifest| checked(extension);
    let ghost of_process = |process: XmipProcessConfiguration|
        process_extensions(process).map_values(checks);
    let ghost of_subprocess = |subprocess: XmipSubprocessConfiguration| subprocess.extensions@;
    let mut found: Vec<VerifiedExtensionNode> = Vec::new();
    let mut at: usize = 0;
    while at < processes.len()
        invariant
            at <= processes@.len(),
            checks == (|extension: ExtensionManifest| checked(extension)),
            of_process == (|process: XmipProcessConfiguration|
                process_extensions(process).map_values(checks)),
            of_subprocess == (|subprocess: XmipSubprocessConfiguration| subprocess.extensions@),
            found@ =~= text::gathered(processes@.take(at as int), of_process),
        decreases processes@.len() - at,
    {
        let process = &processes[at];
        let ghost before = found@;
        verify_each(&process.extensions, &mut found);
        let subprocesses = &process.xmip_subprocesses;
        let mut inner: usize = 0;
        while inner < subprocesses.len()
            invariant
                inner <= subprocesses@.len(),
                checks == (|extension: ExtensionManifest| checked(extension)),
                of_subprocess == (|subprocess: XmipSubprocessConfiguration| subprocess.extensions@),
                found@ =~= before + (process.extensions@ + text::gathered(
                    subprocesses@.take(inner as int),
                    of_subprocess,
                )).map_values(checks),
            decreases subprocesses@.len() - inner,
        {
            verify_each(&subprocesses[inner].extensions, &mut found);
            proof {
                text::lemma_gathered_step(subprocesses@, inner as int, of_subprocess);
            }
            inner += 1;
        }
        proof {
            assert(subprocesses@.take(inner as int) =~= subprocesses@);
            text::lemma_gathered_step(processes@, at as int, of_process);
        }
        at += 1;
    }
    assert(processes@.take(at as int) =~= processes@);
    found
}

fn verify_each(extensions: &Vec<ExtensionManifest>, found: &mut Vec<VerifiedExtensionNode>)
    ensures
        final(found)@ =~= old(found)@ + extensions@.map_values(
            |extension: ExtensionManifest| checked(extension),
        ),
{
    let ghost checks = |extension: ExtensionManifest| checked(extension);
    let mut at: usize = 0;
    while at < extensions.len()
        invariant
            at <= extensions@.len(),
            checks == (|extension: ExtensionManifest| checked(extension)),
            found@ =~= old(found)@ + extensions@.take(at as int).map_values(checks),
        decreases extensions@.len() - at,
    {
        found.push(verified_extension(&extensions[at]));
        at += 1;
    }
    assert(extensions@.take(at as int) =~= extensions@);
}

fn verified_extension(extension: &ExtensionManifest) -> (r: VerifiedExtensionNode)
    ensures
        r == checked(*extension),
{
    VerifiedExtensionNode {
        name: extension.name.clone(),
        version: extension.version.clone(),
        loaded_during_startup: false,
    }
}

/// Why a configured module would stop the node.
pub open spec fn module_errors(module: ModuleConfiguration) -> Seq<Seq<char>> {
    text::line_if(text::blank(module.name@), "configured module requires a name"@)
}

/// Why a configured module would start the node degraded.
pub open spec fn module_warnings(module: ModuleConfiguration) -> Seq<Seq<char>> {
    text::line_if(
        module.manifest.capabilities@.len() == 0,
        "module '"@ + module.name@ + "' declares no capabilities"@,
    )
}

/// A required module the document does not have.
pub open spec fn required_errors(
    modules: Seq<ModuleConfiguration>,
    owner: Seq<char>,
    required: Seq<char>,
) -> Seq<Seq<char>> {
    text::line_if(
        !configured(modules, required),
        owner + " requires missing module '"@ + required + "'"@,
    )
}

/// A required module the document has and does not start.
pub open spec fn required_warnings(
    modules: Seq<ModuleConfiguration>,
    owner: Seq<char>,
    required: Seq<char>,
) -> Seq<Seq<char>> {
    text::line_if(
        configured(modules, required) && !started(modules, required),
        owner + " requires module '"@ + required + "', but it is configured not to start"@,
    )
}

/// What an extension leaves out.
pub open spec fn extension_errors(
    owner: Seq<char>,
    extension: ExtensionManifest,
) -> Seq<Seq<char>> {
    text::line_if(
        text::blank(extension.name@),
        owner + " references an extension without a name"@,
    ) + text::line_if(
        text::blank(extension.version@),
        "extension '"@ + extension.name@ + "' requires a version"@,
    ) + text::line_if(
        text::blank(extension.entrypoint.path@),
        "extension '"@ + extension.name@ + "' requires an entrypoint path"@,
    )
}

/// How a report names an Xmip Process.
pub open spec fn process_owner(process: Seq<char>) -> Seq<char> {
    "Xmip Process '"@ + process + "'"@
}

/// How a report names an Xmip Subprocess.
pub open spec fn subprocess_owner(process: Seq<char>, subprocess: Seq<char>) -> Seq<char> {
    "Xmip Subprocess '"@ + subprocess + "' of Xmip Process '"@ + process + "'"@
}

/// What `owner` requires and the document does not have.
pub open spec fn all_required_errors(
    modules: Seq<ModuleConfiguration>,
    owner: Seq<char>,
    required: Seq<String>,
) -> Seq<Seq<char>> {
    text::gathered(required, |name: String| required_errors(modules, owner, name@))
}

/// What `owner` requires and the document does not start.
pub open spec fn all_required_warnings(
    modules: Seq<ModuleConfiguration>,
    owner: Seq<char>,
    required: Seq<String>,
) -> Seq<Seq<char>> {
    text::gathered(required, |name: String| required_warnings(modules, owner, name@))
}

/// What `owner`'s extensions leave out.
pub open spec fn all_extension_errors(
    owner: Seq<char>,
    extensions: Seq<ExtensionManifest>,
) -> Seq<Seq<char>> {
    text::gathered(extensions, |extension: ExtensionManifest| extension_errors(owner, extension))
}

pub open spec fn subprocess_errors(
    modules: Seq<ModuleConfiguration>,
    process: Seq<char>,
    subprocess: XmipSubprocessConfiguration,
) -> Seq<Seq<char>> {
    let owner = subprocess_owner(process, subprocess.name@);
    text::line_if(
        text::blank(subprocess.name@),
        "Xmip Process '"@ + process + "' has an Xmip Subprocess without a name"@,
    ) + all_required_errors(modules, owner, subprocess.required_modules@) + all_extension_errors(
        owner,
        subprocess.extensions@,
    )
}

pub open spec fn subprocess_warnings(
    modules: Seq<ModuleConfiguration>,
    process: Seq<char>,
    subprocess: XmipSubprocessConfiguration,
) -> Seq<Seq<char>> {
    all_required_warnings(
        modules,
        subprocess_owner(process, subprocess.name@),
        subprocess.required_modules@,
    )
}

pub open spec fn process_errors(
    modules: Seq<ModuleConfiguration>,
    process: XmipProcessConfiguration,
) -> Seq<Seq<char>> {
    let owner = process_owner(process.name@);
    text::line_if(text::blank(process.name@), "configured Xmip Process requires a name"@)
        + all_required_errors(modules, owner, process.required_modules@) + all_extension_errors(
        owner,
        process.extensions@,
    ) + text::gathered(
        process.xmip_subprocesses@,
        |subprocess: XmipSubprocessConfiguration|
            subprocess_errors(modules, process.name@, subprocess),
    )
}

pub open spec fn process_warnings(
    modules: Seq<ModuleConfiguration>,
    process: XmipProcessConfiguration,
) -> Seq<Seq<char>> {
    all_required_warnings(modules, process_owner(process.name@), process.required_modules@)
        + text::gathered(
        process.xmip_subprocesses@,
        |subprocess: XmipSubprocessConfiguration|
            subprocess_warnings(modules, process.name@, subprocess),
    )
}

/// A location the document names but leaves empty.
pub open spec fn location_errors(
    stage: Seq<char>,
    location: ConfiguredLocation,
) -> Seq<Seq<char>> {
    text::line_if(text::blank(location.name@), "configured "@ + stage + " requires a name"@)
        + text::line_if(
        text::blank(location.transport@),
        stage + " '"@ + location.name@ + "' requires a transport"@,
    )
}

/// Everything in the document that would stop the node starting, in the
/// document's order.
pub open spec fn startup_errors(document: XmipConfigurationDocument) -> Seq<Seq<char>> {
    let modules = document.modules@;
    text::gathered(modules, |module: ModuleConfiguration| module_errors(module)) + text::gathered(
        document.xmip_processes@,
        |process: XmipProcessConfiguration| process_errors(modules, process),
    ) + text::gathered(
        document.receive_locations@,
        |location: ConfiguredLocation| location_errors("Receive Location"@, location),
    ) + text::gathered(
        document.send_locations@,
        |location: ConfiguredLocation| location_errors("Send Location"@, location),
    )
}

/// Everything in the document that would start the node degraded, in the
/// document's order.
pub open spec fn startup_warnings(document: XmipConfigurationDocument) -> Seq<Seq<char>> {
    let modules = document.modules@;
    text::gathered(modules, |module: ModuleConfiguration| module_warnings(module))
        + text::gathered(
        document.xmip_processes@,
        |process: XmipProcessConfiguration| process_warnings(modules, process),
    )
}

/// Everything in the document that would stop the node starting, as errors,
/// and what would start it degraded, as warnings.
#[must_use]
pub fn validate_startup_configuration(document: &XmipConfigurationDocument) -> (report:
    StartupValidationReport)
    ensures
        text::read(report.errors@) == startup_errors(*document),
        text::read(report.warnings@) == startup_warnings(*document),
{
    let mut errors: Vec<String> = Vec::new();
    let mut warnings: Vec<String> = Vec::new();

    let modules = &document.modules;
    let ghost module_said = |module: ModuleConfiguration| module_errors(module);
    let ghost module_warned = |module: ModuleConfiguration| module_warnings(module);
    let mut at: usize = 0;
    while at < modules.len()
        invariant
            at <= modules@.len(),
            module_said == (|module: ModuleConfiguration| module_errors(module)),
            module_warned == (|module: ModuleConfiguration| module_warnings(module)),
            text::read(errors@) =~= text::gathered(modules@.take(at as int), module_said),
            text::read(warnings@) =~= text::gathered(modules@.take(at as int), module_warned),
        decreases modules@.len() - at,
    {
        let module = &modules[at];
        if text::is_blank(module.name.as_str()) {
            text::push_line(&mut errors, "configured module requires a name".to_string());
        }
        if module.manifest.capabilities.is_empty() {
            text::push_line(
                &mut warnings,
                "module '".to_string().concat(module.name.as_str()).concat(
                    "' declares no capabilities",
                ),
            );
        }
        proof {
            text::lemma_gathered_step(modules@, at as int, module_said);
            text::lemma_gathered_step(modules@, at as int, module_warned);
        }
        at += 1;
    }
    assert(modules@.take(at as int) =~= modules@);

    let processes = &document.xmip_processes;
    let ghost process_said = |process: XmipProcessConfiguration| process_errors(modules@, process);
    let ghost process_warned = |process: XmipProcessConfiguration|
        process_warnings(modules@, process);
    let ghost errors_before = text::read(errors@);
    let ghost warnings_before = text::read(warnings@);
    at = 0;
    while at < processes.len()
        invariant
            at <= processes@.len(),
            process_said == (|process: XmipProcessConfiguration| process_errors(modules@, process)),
            process_warned == (|process: XmipProcessConfiguration|
                process_warnings(modules@, process)),
            text::read(errors@) =~= errors_before + text::gathered(
                processes@.take(at as int),
                process_said,
            ),
            text::read(warnings@) =~= warnings_before + text::gathered(
                processes@.take(at as int),
                process_warned,
            ),
        decreases processes@.len() - at,
    {
        validate_process(&processes[at], modules, &mut errors, &mut warnings);
        proof {
            text::lemma_gathered_step(processes@, at as int, process_said);
            text::lemma_gathered_step(processes@, at as int, process_warned);
        }
        at += 1;
    }
    assert(processes@.take(at as int) =~= processes@);

    validate_locations("Receive Location", &document.receive_locations, &mut errors);
    validate_locations("Send Location", &document.send_locations, &mut errors);

    StartupValidationReport { errors, warnings }
}

fn validate_process(
    process: &XmipProcessConfiguration,
    modules: &Vec<ModuleConfiguration>,
    errors: &mut Vec<String>,
    warnings: &mut Vec<String>,
)
    ensures
        text::read(final(errors)@) =~= text::read(old(errors)@) + process_errors(
            modules@,
            *process,
        ),
        text::read(final(warnings)@) =~= text::read(old(warnings)@) + process_warnings(
            modules@,
            *process,
        ),
{
    if text::is_blank(process.name.as_str()) {
        text::push_line(errors, "configured Xmip Process requires a name".to_string());
    }
    let owner = "Xmip Process '".to_string().concat(process.name.as_str()).concat("'");
    validate_required(&process.required_modules, modules, errors, warnings, owner.as_str());
    verify_extensions(&process.extensions, errors, owner.as_str());

    let subprocesses = &process.xmip_subprocesses;
    let ghost said = |subprocess: XmipSubprocessConfiguration|
        subprocess_errors(modules@, process.name@, subprocess);
    let ghost warned = |subprocess: XmipSubprocessConfiguration|
        subprocess_warnings(modules@, process.name@, subprocess);
    let ghost errors_before = text::read(errors@);
    let ghost warnings_before = text::read(warnings@);
    let mut at: usize = 0;
    while at < subprocesses.len()
        invariant
            at <= subprocesses@.len(),
            said == (|subprocess: XmipSubprocessConfiguration|
                subprocess_errors(modules@, process.name@, subprocess)),
            warned == (|subprocess: XmipSubprocessConfiguration|
                subprocess_warnings(modules@, process.name@, subprocess)),
            text::read(errors@) =~= errors_before + text::gathered(
                subprocesses@.take(at as int),
                said,
            ),
            text::read(warnings@) =~= warnings_before + text::gathered(
                subprocesses@.take(at as int),
                warned,
            ),
        decreases subprocesses@.len() - at,
    {
        validate_subprocess(&subprocesses[at], process.name.as_str(), modules, errors, warnings);
        proof {
            text::lemma_gathered_step(subprocesses@, at as int, said);
            text::lemma_gathered_step(subprocesses@, at as int, warned);
        }
        at += 1;
    }
    assert(subprocesses@.take(at as int) =~= subprocesses@);
}

fn validate_subprocess(
    subprocess: &XmipSubprocessConfiguration,
    process: &str,
    modules: &Vec<ModuleConfiguration>,
    errors: &mut Vec<String>,
    warnings: &mut Vec<String>,
)
    ensures
        text::read(final(errors)@) =~= text::read(old(errors)@) + subprocess_errors(
            modules@,
            process@,
            *subprocess,
        ),
        text::read(final(warnings)@) =~= text::read(old(warnings)@) + subprocess_warnings(
            modules@,
            process@,
            *subprocess,
        ),
{
    if text::is_blank(subprocess.name.as_str()) {
        text::push_line(
            errors,
            "Xmip Process '".to_string().concat(process).concat(
                "' has an Xmip Subprocess without a name",
            ),
        );
    }
    let owner = "Xmip Subprocess '".to_string().concat(subprocess.name.as_str()).concat(
        "' of Xmip Process '",
    ).concat(process).concat("'");
    validate_required(&subprocess.required_modules, modules, errors, warnings, owner.as_str());
    verify_extensions(&subprocess.extensions, errors, owner.as_str());
}

fn validate_required(
    required: &Vec<String>,
    modules: &Vec<ModuleConfiguration>,
    errors: &mut Vec<String>,
    warnings: &mut Vec<String>,
    owner: &str,
)
    ensures
        text::read(final(errors)@) =~= text::read(old(errors)@) + all_required_errors(
            modules@,
            owner@,
            required@,
        ),
        text::read(final(warnings)@) =~= text::read(old(warnings)@) + all_required_warnings(
            modules@,
            owner@,
            required@,
        ),
{
    let ghost said = |name: String| required_errors(modules@, owner@, name@);
    let ghost warned = |name: String| required_warnings(modules@, owner@, name@);
    let mut at: usize = 0;
    while at < required.len()
        invariant
            at <= required@.len(),
            said == (|name: String| required_errors(modules@, owner@, name@)),
            warned == (|name: String| required_warnings(modules@, owner@, name@)),
            text::read(errors@) =~= text::read(old(errors)@) + text::gathered(
                required@.take(at as int),
                said,
            ),
            text::read(warnings@) =~= text::read(old(warnings)@) + text::gathered(
                required@.take(at as int),
                warned,
            ),
        decreases required@.len() - at,
    {
        validate_required_module(required[at].as_str(), modules, errors, warnings, owner);
        proof {
            text::lemma_gathered_step(required@, at as int, said);
            text::lemma_gathered_step(required@, at as int, warned);
        }
        at += 1;
    }
    assert(required@.take(at as int) =~= required@);
}

/// One module somebody requires: an error where the document does not have
/// it, a warning where it has it and does not start it.
pub fn validate_required_module(
    required_module: &str,
    modules: &Vec<ModuleConfiguration>,
    errors: &mut Vec<String>,
    warnings: &mut Vec<String>,
    owner: &str,
)
    ensures
        text::read(final(errors)@) =~= text::read(old(errors)@) + required_errors(
            modules@,
            owner@,
            required_module@,
        ),
        text::read(final(warnings)@) =~= text::read(old(warnings)@) + required_warnings(
            modules@,
            owner@,
            required_module@,
        ),
{
    let (found, starts) = find_module(modules, required_module);
    if !found {
        text::push_line(
            errors,
            owner.to_string().concat(" requires missing module '").concat(required_module).concat(
                "'",
            ),
        );
        return;
    }
    if !starts {
        text::push_line(
            warnings,
            owner.to_string().concat(" requires module '").concat(required_module).concat(
                "', but it is configured not to start",
            ),
        );
    }
}

/// Whether the document has a module of that name, and whether one of them
/// starts.
fn find_module(modules: &Vec<ModuleConfiguration>, name: &str) -> (r: (bool, bool))
    ensures
        r.0 == configured(modules@, name@),
        r.1 == started(modules@, name@),
{
    let mut found = false;
    let mut starts = false;
    let mut at: usize = 0;
    while at < modules.len()
        invariant
            at <= modules@.len(),
            found == configured(modules@.take(at as int), name@),
            starts == started(modules@.take(at as int), name@),
        decreases modules@.len() - at,
    {
        let module = &modules[at];
        let ghost done = modules@.take(at as int);
        let ghost next = modules@.take(at + 1);
        let called = text::same(module.name.as_str(), name);
        proof {
            assert forall|i: int| 0 <= i < done.len() implies #[trigger] next[i] == done[i] by {}
            assert(next[at as int] == *module);
            if configured(done, name@) {
                let i = choose|i: int|
                    0 <= i < done.len() && #[trigger] done[i].name@ == name@;
                assert(next[i].name@ == name@);
            }
            if started(done, name@) {
                let i = choose|i: int|
                    0 <= i < done.len() && #[trigger] done[i].name@ == name@ && done[i].start;
                assert(next[i].name@ == name@ && next[i].start);
            }
            if configured(next, name@) {
                let i = choose|i: int|
                    0 <= i < next.len() && #[trigger] next[i].name@ == name@;
                if i < at {
                    assert(done[i].name@ == name@);
                }
            }
            if started(next, name@) {
                let i = choose|i: int|
                    0 <= i < next.len() && #[trigger] next[i].name@ == name@ && next[i].start;
                if i < at {
                    assert(done[i].name@ == name@ && done[i].start);
                }
            }
        }
        if called {
            found = true;
            if module.start {
                starts = true;
            }
        }
        at += 1;
    }
    assert(modules@.take(at as int) =~= modules@);
    (found, starts)
}

fn verify_extensions(extensions: &Vec<ExtensionManifest>, errors: &mut Vec<String>, owner: &str)
    ensures
        text::read(final(errors)@) =~= text::read(old(errors)@) + all_extension_errors(
            owner@,
            extensions@,
        ),
{
    let ghost said = |extension: ExtensionManifest| extension_errors(owner@, extension);
    let mut at: usize = 0;
    while at < extensions.len()
        invariant
            at <= extensions@.len(),
            said == (|extension: ExtensionManifest| extension_errors(owner@, extension)),
            text::read(errors@) =~= text::read(old(errors)@) + text::gathered(
                extensions@.take(at as int),
                said,
            ),
        decreases extensions@.len() - at,
    {
        verify_extension_manifest(&extensions[at], errors, owner);
        proof {
            text::lemma_gathered_step(extensions@, at as int, said);
        }
        at += 1;
    }
    assert(extensions@.take(at as int) =~= extensions@);
}

fn verify_extension_manifest(extension: &ExtensionManifest, errors: &mut Vec<String>, owner: &str)
    ensures
        text::read(final(errors)@) =~= text::read(old(errors)@) + extension_errors(
            owner@,
            *extension,
        ),
{
    if text::is_blank(extension.name.as_str()) {
        text::push_line(
            errors,
            owner.to_string().concat(" references an extension without a name"),
        );
    }
    if text::is_blank(extension.version.as_str()) {
        text::push_line(
            errors,
            "extension '".to_string().concat(extension.name.as_str()).concat(
                "' requires a version",
            ),
        );
    }
    if text::is_blank(extension.entrypoint.path.as_str()) {
        text::push_line(
            errors,
            "extension '".to_string().concat(extension.name.as_str()).concat(
                "' requires an entrypoint path",
            ),
        );
    }
}

fn validate_locations(stage: &str, locations: &Vec<ConfiguredLocation>, errors: &mut Vec<String>)
    ensures
        text::read(final(errors)@) =~= text::read(old(errors)@) + text::gathered(
            locations@,
            |location: ConfiguredLocation| location_errors(stage@, location),
        ),
{
    let ghost said = |location: ConfiguredLocation| location_errors(stage@, location);
    let mut at: usize = 0;
    while at < locations.len()
        invariant
            at <= locations@.len(),
            said == (|location: ConfiguredLocation| location_errors(stage@, location)),
            text::read(errors@) =~= text::read(old(errors)@) + text::gathered(
                locations@.take(at as int),
                said,
            ),
        decreases locations@.len() - at,
    {
        validate_location(stage, &locations[at], errors);
        proof {
            text::lemma_gathered_step(locations@, at as int, said);
        }
        at += 1;
    }
    assert(locations@.take(at as int) =~= locations@);
}

/// A location without a name, or one whose transport says nothing, which is
/// what an editor writes when nobody chose.
fn validate_location(stage: &str, location: &ConfiguredLocation, errors: &mut Vec<String>)
    ensures
        text::read(final(errors)@) =~= text::read(old(errors)@) + location_errors(
            stage@,
            *location,
        ),
{
    if text::is_blank(location.name.as_str()) {
        text::push_line(
            errors,
            "configured ".to_string().concat(stage).concat(" requires a name"),
        );
    }
    if text::is_blank(location.transport.as_str()) {
        text::push_line(
            errors,
            stage.to_string().concat(" '").concat(location.name.as_str()).concat(
                "' requires a transport",
            ),
        );
    }
}

/// An extension with a name, a version and an entrypoint path.
pub open spec fn complete(extension: ExtensionManifest) -> bool {
    &&& !text::blank(extension.name@)
    &&& !text::blank(extension.version@)
    &&& !text::blank(extension.entrypoint.path@)
}

/// Everything required is configured, and every extension is complete.
pub open spec fn furnished(
    modules: Seq<ModuleConfiguration>,
    required: Seq<String>,
    extensions: Seq<ExtensionManifest>,
) -> bool {
    &&& forall|i: int|
        0 <= i < required.len() ==> configured(modules, (#[trigger] required[i])@)
    &&& forall|i: int| 0 <= i < extensions.len() ==> complete(#[trigger] extensions[i])
}

/// A Subprocess that has a name and is furnished.
pub open spec fn sound_subprocess(
    modules: Seq<ModuleConfiguration>,
    subprocess: XmipSubprocessConfiguration,
) -> bool {
    &&& !text::blank(subprocess.name@)
    &&& furnished(modules, subprocess.required_modules@, subprocess.extensions@)
}

/// A Process that has a name, is furnished, and whose Subprocesses are sound.
pub open spec fn sound_process(
    modules: Seq<ModuleConfiguration>,
    process: XmipProcessConfiguration,
) -> bool {
    &&& !text::blank(process.name@)
    &&& furnished(modules, process.required_modules@, process.extensions@)
    &&& forall|i: int|
        0 <= i < process.xmip_subprocesses@.len() ==> sound_subprocess(
            modules,
            #[trigger] process.xmip_subprocesses@[i],
        )
}

/// Locations that each have a name and a transport.
pub open spec fn sound_locations(locations: Seq<ConfiguredLocation>) -> bool {
    forall|i: int|
        0 <= i < locations.len() ==> !text::blank((#[trigger] locations[i]).name@) && !text::blank(
            locations[i].transport@,
        )
}

/// A document a node can start from.
pub open spec fn sound(document: XmipConfigurationDocument) -> bool {
    &&& forall|i: int|
        0 <= i < document.modules@.len() ==> !text::blank((#[trigger] document.modules@[i]).name@)
    &&& forall|i: int|
        0 <= i < document.xmip_processes@.len() ==> sound_process(
            document.modules@,
            #[trigger] document.xmip_processes@[i],
        )
    &&& sound_locations(document.receive_locations@)
    &&& sound_locations(document.send_locations@)
}

/// A document is refused exactly when something in it has no name, a location
/// has no transport, a Process or Subprocess requires a module the document
/// does not have, or an extension leaves out its name, version or path.
pub proof fn law_only_a_sound_document_has_no_errors(document: XmipConfigurationDocument)
    ensures
        startup_errors(document).len() == 0 <==> sound(document),
{
    let modules = document.modules@;
    text::lemma_gathered_empty(modules, |module: ModuleConfiguration| module_errors(module));
    let of_process = |process: XmipProcessConfiguration| process_errors(modules, process);
    text::lemma_gathered_empty(document.xmip_processes@, of_process);
    assert forall|process: XmipProcessConfiguration| #[trigger]
        process_errors(modules, process).len() == 0 <==> sound_process(modules, process) by {
        lemma_process(modules, process);
    }
    lemma_locations("Receive Location"@, document.receive_locations@);
    lemma_locations("Send Location"@, document.send_locations@);
    if startup_errors(document).len() == 0 {
        assert forall|i: int| 0 <= i < modules.len() implies !text::blank(
            (#[trigger] modules[i]).name@,
        ) by {
            assert(module_errors(modules[i]).len() == 0);
        }
        assert forall|i: int| 0 <= i < document.xmip_processes@.len() implies sound_process(
            modules,
            #[trigger] document.xmip_processes@[i],
        ) by {
            assert(process_errors(modules, document.xmip_processes@[i]).len() == 0);
        }
    }
    if sound(document) {
        assert forall|i: int| 0 <= i < modules.len() implies module_errors(
            #[trigger] modules[i],
        ).len() == 0 by {}
        assert forall|i: int| 0 <= i < document.xmip_processes@.len() implies process_errors(
            modules,
            #[trigger] document.xmip_processes@[i],
        ).len() == 0 by {}
    }
}

proof fn lemma_furnished(
    modules: Seq<ModuleConfiguration>,
    owner: Seq<char>,
    required: Seq<String>,
    extensions: Seq<ExtensionManifest>,
)
    ensures
        all_required_errors(modules, owner, required).len() == 0 && all_extension_errors(
            owner,
            extensions,
        ).len() == 0 <==> furnished(modules, required, extensions),
{
    let of_required = |name: String| required_errors(modules, owner, name@);
    let of_extension = |extension: ExtensionManifest| extension_errors(owner, extension);
    text::lemma_gathered_empty(required, of_required);
    text::lemma_gathered_empty(extensions, of_extension);
    assert forall|i: int| 0 <= i < required.len() implies (of_required(
        #[trigger] required[i],
    ).len() == 0 <==> configured(modules, required[i]@)) by {}
    assert forall|i: int| 0 <= i < extensions.len() implies (of_extension(
        #[trigger] extensions[i],
    ).len() == 0 <==> complete(extensions[i])) by {}
    if furnished(modules, required, extensions) {
        assert forall|i: int| 0 <= i < required.len() implies of_required(
            #[trigger] required[i],
        ).len() == 0 by {}
        assert forall|i: int| 0 <= i < extensions.len() implies of_extension(
            #[trigger] extensions[i],
        ).len() == 0 by {}
    }
}

proof fn lemma_subprocess(
    modules: Seq<ModuleConfiguration>,
    process: Seq<char>,
    subprocess: XmipSubprocessConfiguration,
)
    ensures
        subprocess_errors(modules, process, subprocess).len() == 0 <==> sound_subprocess(
            modules,
            subprocess,
        ),
{
    lemma_furnished(
        modules,
        subprocess_owner(process, subprocess.name@),
        subprocess.required_modules@,
        subprocess.extensions@,
    );
}

proof fn lemma_process(modules: Seq<ModuleConfiguration>, process: XmipProcessConfiguration)
    ensures
        process_errors(modules, process).len() == 0 <==> sound_process(modules, process),
{
    let subprocesses = process.xmip_subprocesses@;
    let of_subprocess = |subprocess: XmipSubprocessConfiguration|
        subprocess_errors(modules, process.name@, subprocess);
    lemma_furnished(
        modules,
        process_owner(process.name@),
        process.required_modules@,
        process.extensions@,
    );
    text::lemma_gathered_empty(subprocesses, of_subprocess);
    assert forall|i: int| 0 <= i < subprocesses.len() implies (of_subprocess(
        #[trigger] subprocesses[i],
    ).len() == 0 <==> sound_subprocess(modules, subprocesses[i])) by {
        lemma_subprocess(modules, process.name@, subprocesses[i]);
    }
    if sound_process(modules, process) {
        assert forall|i: int| 0 <= i < subprocesses.len() implies of_subprocess(
            #[trigger] subprocesses[i],
        ).len() == 0 by {}
    }
}

proof fn lemma_locations(stage: Seq<char>, locations: Seq<ConfiguredLocation>)
    ensures
        text::gathered(
            locations,
            |location: ConfiguredLocation| location_errors(stage, location),
        ).len() == 0 <==> sound_locations(locations),
{
    let of_location = |location: ConfiguredLocation| location_errors(stage, location);
    text::lemma_gathered_empty(locations, of_location);
    assert forall|i: int| 0 <= i < locations.len() implies (of_location(
        #[trigger] locations[i],
    ).len() == 0 <==> !text::blank(locations[i].name@) && !text::blank(
        locations[i].transport@,
    )) by {}
    if sound_locations(locations) {
        assert forall|i: int| 0 <= i < locations.len() implies of_location(
            #[trigger] locations[i],
        ).len() == 0 by {}
    }
}

/// The tree starts what the document says to start and nothing else, and no
/// extension was loaded to build it.
pub proof fn law_the_tree_is_what_starts(document: XmipConfigurationDocument, tree: ExecutionTree)
    requires
        starts(document, tree),
    ensures
        forall|module: ModuleConfiguration| #[trigger]
            tree.modules_to_start@.contains(module) <==> module.start
                && document.modules@.contains(module),
        forall|process: XmipProcessConfiguration| #[trigger]
            tree.xmip_processes_to_start@.contains(process) <==> process.start
                && document.xmip_processes@.contains(process),
        forall|location: ConfiguredLocation| #[trigger]
            tree.receive_locations_to_start@.contains(location) <==> location.start
                && document.receive_locations@.contains(location),
        forall|location: ConfiguredLocation| #[trigger]
            tree.send_locations_to_start@.contains(location) <==> location.start
                && document.send_locations@.contains(location),
        forall|i: int|
            0 <= i < tree.verified_extensions@.len()
                ==> !(#[trigger] tree.verified_extensions@[i]).loaded_during_startup,
{
    lemma_filtered(document.modules@, |module: ModuleConfiguration| module.start);
    lemma_filtered(document.xmip_processes@, |process: XmipProcessConfiguration| process.start);
    lemma_filtered(document.receive_locations@, |location: ConfiguredLocation| location.start);
    lemma_filtered(document.send_locations@, |location: ConfiguredLocation| location.start);
    lemma_not_loaded(tree.xmip_processes_to_start@);
}

proof fn lemma_filtered<T>(items: Seq<T>, wanted: spec_fn(T) -> bool)
    ensures
        forall|item: T| #[trigger]
            items.filter(wanted).contains(item) <==> wanted(item) && items.contains(item),
    decreases items.len(),
{
    reveal(Seq::filter);
    if items.len() > 0 {
        let rest = items.drop_last();
        let last = items.last();
        lemma_filtered(rest, wanted);
        assert forall|item: T| #[trigger]
            items.filter(wanted).contains(item) <==> wanted(item) && items.contains(item) by {
            let kept = rest.filter(wanted);
            if items.contains(item) {
                let i = choose|i: int| 0 <= i < items.len() && items[i] == item;
                if i < rest.len() {
                    assert(rest[i] == item);
                }
            }
            if rest.contains(item) {
                let i = choose|i: int| 0 <= i < rest.len() && rest[i] == item;
                assert(items[i] == item);
            }
            assert(items[items.len() - 1] == last);
            if wanted(last) {
                assert(items.filter(wanted) == kept.push(last));
                if kept.push(last).contains(item) {
                    let i = choose|i: int|
                        0 <= i < kept.push(last).len() && kept.push(last)[i] == item;
                    if i < kept.len() {
                        assert(kept[i] == item);
                    }
                }
                if kept.contains(item) {
                    let i = choose|i: int| 0 <= i < kept.len() && kept[i] == item;
                    assert(kept.push(last)[i] == item);
                }
                assert(kept.push(last)[kept.len() as int] == last);
            }
        }
    }
}

proof fn lemma_not_loaded(processes: Seq<XmipProcessConfiguration>)
    ensures
        forall|i: int|
            0 <= i < checked_extensions(processes).len() ==> !(#[trigger] checked_extensions(
                processes,
            )[i]).loaded_during_startup,
    decreases processes.len(),
{
    if processes.len() > 0 {
        lemma_not_loaded(processes.drop_last());
        assert forall|i: int| 0 <= i < checked_extensions(processes).len() implies !(
        #[trigger] checked_extensions(processes)[i]).loaded_during_startup by {
            let rest = checked_extensions(processes.drop_last());
            if i < rest.len() {
                assert(checked_extensions(processes)[i] == rest[i]);
            }
        }
    }
}

/// A Process brings an extension: it declares it itself, or one of its
/// Subprocesses does.
pub open spec fn brings(process: XmipProcessConfiguration, extension: ExtensionManifest) -> bool {
    ||| process.extensions@.contains(extension)
    ||| exists|i: int|
        0 <= i < process.xmip_subprocesses@.len() && (
        #[trigger] process.xmip_subprocesses@[i]).extensions@.contains(extension)
}

/// Some Process that starts brings what `node` says was verified, under that
/// name and in that version.
pub open spec fn brought(
    processes: Seq<XmipProcessConfiguration>,
    node: VerifiedExtensionNode,
) -> bool {
    exists|i: int, extension: ExtensionManifest|
        0 <= i < processes.len() && processes[i].start && #[trigger] brings(
            processes[i],
            extension,
        ) && node.name == extension.name && node.version == extension.version
}

/// How many extensions a Process and its Subprocesses declare.
pub open spec fn declared(process: XmipProcessConfiguration) -> nat {
    process.extensions@.len() + text::total(
        process.xmip_subprocesses@,
        |subprocess: XmipSubprocessConfiguration| subprocess.extensions@.len(),
    )
}

/// An extension stands in the tree, by name and version, if and only if a
/// Process that starts declares it itself or one of that Process's Subprocesses
/// does; there are as many as those declare together; and none is loaded.
pub proof fn law_the_tree_has_every_extension_that_starts(
    document: XmipConfigurationDocument,
    tree: ExecutionTree,
    report: StartupValidationReport,
)
    requires
        call_ensures(build_execution_tree, (document,), Ok((tree, report))),
    ensures
        forall|node: VerifiedExtensionNode| #[trigger]
            tree.verified_extensions@.contains(node) <==> !node.loaded_during_startup && brought(
                document.xmip_processes@,
                node,
            ),
        tree.verified_extensions@.len() == text::total(
            document.xmip_processes@,
            |process: XmipProcessConfiguration|
                if process.start {
                    declared(process)
                } else {
                    0
                },
        ),
{
    let all = document.xmip_processes@;
    let starting = all.filter(|process: XmipProcessConfiguration| process.start);
    lemma_filtered(all, |process: XmipProcessConfiguration| process.start);
    let checks = |extension: ExtensionManifest| checked(extension);
    let of_process = |process: XmipProcessConfiguration|
        process_extensions(process).map_values(checks);
    assert(tree.verified_extensions@ == text::gathered(starting, of_process));
    assert forall|node: VerifiedExtensionNode| #[trigger]
        tree.verified_extensions@.contains(node) <==> !node.loaded_during_startup && brought(
            all,
            node,
        ) by {
        text::law_gathered_holds_what_is_said(starting, of_process, node);
        if tree.verified_extensions@.contains(node) {
            let i = choose|i: int|
                0 <= i < starting.len() && of_process(#[trigger] starting[i]).contains(node);
            let process = starting[i];
            let own = process_extensions(process);
            let said = of_process(process);
            let k = choose|k: int| 0 <= k < said.len() && said[k] == node;
            assert(node == checked(own[k]));
            assert(own.contains(own[k]));
            lemma_brings(process, own[k]);
            assert(starting.contains(process));
            let p = choose|p: int| 0 <= p < all.len() && all[p] == process;
            assert(brings(all[p], own[k]));
        }
        if !node.loaded_during_startup && brought(all, node) {
            let (p, extension) = choose|p: int, extension: ExtensionManifest|
                0 <= p < all.len() && all[p].start && #[trigger] brings(all[p], extension)
                    && node.name == extension.name && node.version == extension.version;
            let process = all[p];
            lemma_brings(process, extension);
            let own = process_extensions(process);
            let k = choose|k: int| 0 <= k < own.len() && own[k] == extension;
            assert(node == checked(extension));
            assert(of_process(process)[k] == node);
            assert(all.contains(process));
            assert(starting.contains(process));
            let i = choose|i: int| 0 <= i < starting.len() && starting[i] == process;
            assert(of_process(starting[i]).contains(node));
        }
    }
    lemma_declared_of_starting(all);
}

proof fn lemma_brings(process: XmipProcessConfiguration, extension: ExtensionManifest)
    ensures
        process_extensions(process).contains(extension) <==> brings(process, extension),
        process_extensions(process).len() == declared(process),
{
    let own = process.extensions@;
    let of_subprocess = |subprocess: XmipSubprocessConfiguration| subprocess.extensions@;
    let theirs = text::gathered(process.xmip_subprocesses@, of_subprocess);
    text::law_gathered_holds_what_is_said(process.xmip_subprocesses@, of_subprocess, extension);
    text::law_gathered_counts_what_is_said(
        process.xmip_subprocesses@,
        of_subprocess,
        |subprocess: XmipSubprocessConfiguration| subprocess.extensions@.len(),
    );
    let all = process_extensions(process);
    if all.contains(extension) {
        let k = choose|k: int| 0 <= k < all.len() && all[k] == extension;
        if k < own.len() {
            assert(own[k] == extension);
        } else {
            assert(theirs[k - own.len()] == extension);
            assert(theirs.contains(extension));
            let i = choose|i: int|
                0 <= i < process.xmip_subprocesses@.len() && of_subprocess(
                    #[trigger] process.xmip_subprocesses@[i],
                ).contains(extension);
            assert(process.xmip_subprocesses@[i].extensions@.contains(extension));
        }
    }
    if own.contains(extension) {
        let k = choose|k: int| 0 <= k < own.len() && own[k] == extension;
        assert(all[k] == extension);
    }
    if exists|i: int|
        0 <= i < process.xmip_subprocesses@.len() && (
        #[trigger] process.xmip_subprocesses@[i]).extensions@.contains(extension) {
        let i = choose|i: int|
            0 <= i < process.xmip_subprocesses@.len() && (
            #[trigger] process.xmip_subprocesses@[i]).extensions@.contains(extension);
        assert(of_subprocess(process.xmip_subprocesses@[i]).contains(extension));
        assert(theirs.contains(extension));
        let k = choose|k: int| 0 <= k < theirs.len() && theirs[k] == extension;
        assert(all[own.len() + k] == extension);
    }
}

proof fn lemma_declared_of_starting(processes: Seq<XmipProcessConfiguration>)
    ensures
        checked_extensions(
            processes.filter(|process: XmipProcessConfiguration| process.start),
        ).len() == text::total(
            processes,
            |process: XmipProcessConfiguration|
                if process.start {
                    declared(process)
                } else {
                    0
                },
        ),
{
    let wanted = |process: XmipProcessConfiguration| process.start;
    let of_process = |process: XmipProcessConfiguration|
        process_extensions(process).map_values(|extension: ExtensionManifest| checked(extension));
    let of_starting = |process: XmipProcessConfiguration|
        if process.start {
            of_process(process)
        } else {
            Seq::empty()
        };
    let count = |process: XmipProcessConfiguration|
        if process.start {
            declared(process)
        } else {
            0
        };
    lemma_gathered_of_kept(processes, wanted, of_process, of_starting);
    assert forall|i: int| 0 <= i < processes.len() implies of_starting(
        #[trigger] processes[i],
    ).len() == count(processes[i]) by {
        lemma_brings(processes[i], arbitrary());
    }
    text::law_gathered_counts_what_is_said(processes, of_starting, count);
}

/// What is gathered of the kept items is gathered of all of them, with nothing
/// said of the others.
proof fn lemma_gathered_of_kept<T, U>(
    items: Seq<T>,
    wanted: spec_fn(T) -> bool,
    said: spec_fn(T) -> Seq<U>,
    said_if: spec_fn(T) -> Seq<U>,
)
    requires
        forall|item: T|
            #[trigger] said_if(item) == (if wanted(item) {
                said(item)
            } else {
                Seq::empty()
            }),
    ensures
        text::gathered(items.filter(wanted), said) == text::gathered(items, said_if),
    decreases items.len(),
{
    reveal(Seq::filter);
    if items.len() > 0 {
        let rest = items.drop_last();
        let last = items.last();
        lemma_gathered_of_kept(rest, wanted, said, said_if);
        assert(said_if(last) == (if wanted(last) {
            said(last)
        } else {
            Seq::empty()
        }));
        let kept = rest.filter(wanted);
        if wanted(last) {
            assert(items.filter(wanted) == kept.push(last));
            assert(kept.push(last).drop_last() =~= kept);
            assert(kept.push(last).last() == last);
        } else {
            assert(items.filter(wanted) == kept);
            assert(text::gathered(rest, said_if) + said_if(last) =~= text::gathered(rest, said_if));
        }
    }
}

/// The extensions stand in the tree in the document's order: those of an earlier
/// Process before those of a later one, and of one Process its own before its
/// Subprocesses'.
pub proof fn law_extensions_stand_in_the_documents_order(
    document: XmipConfigurationDocument,
    tree: ExecutionTree,
    report: StartupValidationReport,
)
    requires
        call_ensures(build_execution_tree, (document,), Ok((tree, report))),
    ensures
        tree.service == document.service,
        tree.modules_to_start@ == document.modules@.filter(
            |module: ModuleConfiguration| module.start,
        ),
        tree.xmip_processes_to_start@ == document.xmip_processes@.filter(
            |process: XmipProcessConfiguration| process.start,
        ),
        tree.receive_locations_to_start@ == document.receive_locations@.filter(
            |location: ConfiguredLocation| location.start,
        ),
        tree.send_locations_to_start@ == document.send_locations@.filter(
            |location: ConfiguredLocation| location.start,
        ),
        tree.verified_extensions@.map_values(
            |node: VerifiedExtensionNode| (node.name, node.version),
        ) == tree.xmip_processes_to_start@.map_values(
            |process: XmipProcessConfiguration|
                process.extensions@ + process.xmip_subprocesses@.map_values(
                    |subprocess: XmipSubprocessConfiguration| subprocess.extensions@,
                ).flatten(),
        ).flatten().map_values(
            |extension: ExtensionManifest| (extension.name, extension.version),
        ),
{
    let processes = tree.xmip_processes_to_start@;
    let of_process = |process: XmipProcessConfiguration| process_extensions(process);
    let laid = |process: XmipProcessConfiguration|
        process.extensions@ + process.xmip_subprocesses@.map_values(
            |subprocess: XmipSubprocessConfiguration| subprocess.extensions@,
        ).flatten();
    assert forall|process: XmipProcessConfiguration| #[trigger] of_process(process) == laid(
        process,
    ) by {
        text::law_gathered_is_end_to_end(
            process.xmip_subprocesses@,
            |subprocess: XmipSubprocessConfiguration| subprocess.extensions@,
        );
    }
    assert(of_process =~= laid);
    text::law_gathered_is_end_to_end(processes, of_process);
    lemma_checked(processes);
    let named = |node: VerifiedExtensionNode| (node.name, node.version);
    let called = |extension: ExtensionManifest| (extension.name, extension.version);
    let all = text::gathered(processes, of_process);
    assert(checked_extensions(processes).map_values(named) =~= all.map_values(called));
}

proof fn lemma_checked(processes: Seq<XmipProcessConfiguration>)
    ensures
        checked_extensions(processes) == text::gathered(
            processes,
            |process: XmipProcessConfiguration| process_extensions(process),
        ).map_values(|extension: ExtensionManifest| checked(extension)),
    decreases processes.len(),
{
    let checks = |extension: ExtensionManifest| checked(extension);
    let of_process = |process: XmipProcessConfiguration| process_extensions(process);
    if processes.len() > 0 {
        lemma_checked(processes.drop_last());
        assert(checked_extensions(processes) =~= text::gathered(processes, of_process).map_values(
            checks,
        ));
    } else {
        assert(checked_extensions(processes) =~= text::gathered(processes, of_process).map_values(
            checks,
        ));
    }
}

/// One of `lines` reads as `line`.
pub open spec fn among(lines: Seq<String>, line: Seq<char>) -> bool {
    exists|i: int| 0 <= i < lines.len() && (#[trigger] lines[i])@ == line
}

proof fn lemma_among(lines: Seq<String>, line: Seq<char>)
    requires
        text::read(lines).contains(line),
    ensures
        among(lines, line),
{
    let i = choose|i: int| 0 <= i < text::read(lines).len() && text::read(lines)[i] == line;
    assert(lines[i]@ == line);
}

/// Some module of the document has this name, and none of those starts.
pub open spec fn stopped(modules: Seq<ModuleConfiguration>, name: Seq<char>) -> bool {
    &&& exists|i: int| 0 <= i < modules.len() && (#[trigger] modules[i]).name@ == name
    &&& forall|i: int|
        0 <= i < modules.len() && (#[trigger] modules[i]).name@ == name ==> !modules[i].start
}

/// No module of the document has this name.
pub open spec fn missing(modules: Seq<ModuleConfiguration>, name: Seq<char>) -> bool {
    forall|i: int| 0 <= i < modules.len() ==> (#[trigger] modules[i]).name@ != name
}

/// A module without a name is an error, and one that can do nothing a warning
/// that names it.
pub proof fn law_a_module_is_reported(
    document: XmipConfigurationDocument,
    report: StartupValidationReport,
    at: int,
)
    requires
        call_ensures(validate_startup_configuration, (&document,), report),
        0 <= at < document.modules@.len(),
    ensures
        text::blank(document.modules@[at].name@) ==> among(
            report.errors@,
            "configured module requires a name"@,
        ),
        document.modules@[at].manifest.capabilities@.len() == 0 ==> among(
            report.warnings@,
            "module '"@ + document.modules@[at].name@ + "' declares no capabilities"@,
        ),
{
    let modules = document.modules@;
    let of_module = |module: ModuleConfiguration| module_errors(module);
    let warned = |module: ModuleConfiguration| module_warnings(module);
    if text::blank(modules[at].name@) {
        let line = "configured module requires a name"@;
        assert(of_module(modules[at])[0] == line);
        text::law_gathered_holds_what_is_said(modules, of_module, line);
        lemma_in_errors(document, text::gathered(modules, of_module), line);
        lemma_among(report.errors@, line);
    }
    if modules[at].manifest.capabilities@.len() == 0 {
        let line = "module '"@ + modules[at].name@ + "' declares no capabilities"@;
        assert(warned(modules[at])[0] == line);
        text::law_gathered_holds_what_is_said(modules, warned, line);
        let all = text::gathered(modules, warned);
        let k = choose|k: int| 0 <= k < all.len() && all[k] == line;
        assert(startup_warnings(document)[k] == line);
        lemma_among(report.warnings@, line);
    }
}

/// What stands in one of the lists of errors stands among all of them.
proof fn lemma_in_errors(
    document: XmipConfigurationDocument,
    part: Seq<Seq<char>>,
    line: Seq<char>,
)
    requires
        part.contains(line),
        ({
            let modules = document.modules@;
            ||| part == text::gathered(modules, |module: ModuleConfiguration| module_errors(module))
            ||| part == text::gathered(
                document.xmip_processes@,
                |process: XmipProcessConfiguration| process_errors(modules, process),
            )
            ||| part == text::gathered(
                document.receive_locations@,
                |location: ConfiguredLocation| location_errors("Receive Location"@, location),
            )
            ||| part == text::gathered(
                document.send_locations@,
                |location: ConfiguredLocation| location_errors("Send Location"@, location),
            )
        }),
    ensures
        startup_errors(document).contains(line),
{
    let modules = document.modules@;
    let a = text::gathered(modules, |module: ModuleConfiguration| module_errors(module));
    let b = text::gathered(
        document.xmip_processes@,
        |process: XmipProcessConfiguration| process_errors(modules, process),
    );
    let c = text::gathered(
        document.receive_locations@,
        |location: ConfiguredLocation| location_errors("Receive Location"@, location),
    );
    let d = text::gathered(
        document.send_locations@,
        |location: ConfiguredLocation| location_errors("Send Location"@, location),
    );
    let all = startup_errors(document);
    assert(all == a + b + c + d);
    let k = choose|k: int| 0 <= k < part.len() && part[k] == line;
    if part == a {
        assert(all[k] == line);
    } else if part == b {
        assert(all[a.len() + k] == line);
    } else if part == c {
        assert(all[a.len() + b.len() + k] == line);
    } else {
        assert(all[a.len() + b.len() + c.len() + k] == line);
    }
}

/// An error of a Process is an error of the document, and so with a warning.
proof fn lemma_of_process(
    document: XmipConfigurationDocument,
    report: StartupValidationReport,
    at: int,
    line: Seq<char>,
)
    requires
        call_ensures(validate_startup_configuration, (&document,), report),
        0 <= at < document.xmip_processes@.len(),
    ensures
        process_errors(document.modules@, document.xmip_processes@[at]).contains(line) ==> among(
            report.errors@,
            line,
        ),
        process_warnings(document.modules@, document.xmip_processes@[at]).contains(line) ==> among(
            report.warnings@,
            line,
        ),
{
    let modules = document.modules@;
    let processes = document.xmip_processes@;
    let of_process = |process: XmipProcessConfiguration| process_errors(modules, process);
    let warned = |process: XmipProcessConfiguration| process_warnings(modules, process);
    text::law_gathered_holds_what_is_said(processes, of_process, line);
    text::law_gathered_holds_what_is_said(processes, warned, line);
    if process_errors(modules, processes[at]).contains(line) {
        assert(of_process(processes[at]).contains(line));
        lemma_in_errors(document, text::gathered(processes, of_process), line);
        lemma_among(report.errors@, line);
    }
    if process_warnings(modules, processes[at]).contains(line) {
        assert(warned(processes[at]).contains(line));
        let all = text::gathered(processes, warned);
        let k = choose|k: int| 0 <= k < all.len() && all[k] == line;
        let first = text::gathered(modules, |module: ModuleConfiguration| module_warnings(module));
        assert(startup_warnings(document)[first.len() + k] == line);
        lemma_among(report.warnings@, line);
    }
}

/// An error of a Subprocess is one of its Process, and so with a warning.
proof fn lemma_of_subprocess(
    modules: Seq<ModuleConfiguration>,
    process: XmipProcessConfiguration,
    at: int,
    line: Seq<char>,
)
    requires
        0 <= at < process.xmip_subprocesses@.len(),
    ensures
        subprocess_errors(modules, process.name@, process.xmip_subprocesses@[at]).contains(line)
            ==> process_errors(modules, process).contains(line),
        subprocess_warnings(modules, process.name@, process.xmip_subprocesses@[at]).contains(line)
            ==> process_warnings(modules, process).contains(line),
{
    let subprocesses = process.xmip_subprocesses@;
    let said = |subprocess: XmipSubprocessConfiguration|
        subprocess_errors(modules, process.name@, subprocess);
    let warned = |subprocess: XmipSubprocessConfiguration|
        subprocess_warnings(modules, process.name@, subprocess);
    text::law_gathered_holds_what_is_said(subprocesses, said, line);
    text::law_gathered_holds_what_is_said(subprocesses, warned, line);
    if subprocess_errors(modules, process.name@, subprocesses[at]).contains(line) {
        assert(said(subprocesses[at]).contains(line));
        let all = text::gathered(subprocesses, said);
        let k = choose|k: int| 0 <= k < all.len() && all[k] == line;
        let whole = process_errors(modules, process);
        assert(whole[whole.len() - all.len() + k] == line);
    }
    if subprocess_warnings(modules, process.name@, subprocesses[at]).contains(line) {
        assert(warned(subprocesses[at]).contains(line));
        let all = text::gathered(subprocesses, warned);
        let k = choose|k: int| 0 <= k < all.len() && all[k] == line;
        let whole = process_warnings(modules, process);
        assert(whole[whole.len() - all.len() + k] == line);
    }
}

/// What a Process or Subprocess requires is reported by name, with who requires
/// it: as an error where the document has no such module, and as a warning where
/// it has and none of them starts.
proof fn lemma_required(
    modules: Seq<ModuleConfiguration>,
    owner: Seq<char>,
    required: Seq<String>,
    at: int,
)
    requires
        0 <= at < required.len(),
    ensures
        missing(modules, required[at]@) ==> all_required_errors(
            modules,
            owner,
            required,
        ).contains(owner + " requires missing module '"@ + required[at]@ + "'"@),
        stopped(modules, required[at]@) ==> all_required_warnings(
            modules,
            owner,
            required,
        ).contains(
            owner + " requires module '"@ + required[at]@
                + "', but it is configured not to start"@,
        ),
{
    let said = |name: String| required_errors(modules, owner, name@);
    let warned = |name: String| required_warnings(modules, owner, name@);
    if missing(modules, required[at]@) {
        let line = owner + " requires missing module '"@ + required[at]@ + "'"@;
        text::law_gathered_holds_what_is_said(required, said, line);
        assert(said(required[at])[0] == line);
    }
    if stopped(modules, required[at]@) {
        let line = owner + " requires module '"@ + required[at]@
            + "', but it is configured not to start"@;
        text::law_gathered_holds_what_is_said(required, warned, line);
        assert(warned(required[at])[0] == line);
    }
}

/// What an extension leaves out is reported.
proof fn lemma_extension(owner: Seq<char>, extensions: Seq<ExtensionManifest>, at: int)
    requires
        0 <= at < extensions.len(),
    ensures
        text::blank(extensions[at].name@) ==> all_extension_errors(owner, extensions).contains(
            owner + " references an extension without a name"@,
        ),
        text::blank(extensions[at].version@) ==> all_extension_errors(owner, extensions).contains(
            "extension '"@ + extensions[at].name@ + "' requires a version"@,
        ),
        text::blank(extensions[at].entrypoint.path@) ==> all_extension_errors(
            owner,
            extensions,
        ).contains("extension '"@ + extensions[at].name@ + "' requires an entrypoint path"@),
{
    let said = |extension: ExtensionManifest| extension_errors(owner, extension);
    let extension = extensions[at];
    let lines = said(extension);
    let named = owner + " references an extension without a name"@;
    let versioned = "extension '"@ + extension.name@ + "' requires a version"@;
    let entered = "extension '"@ + extension.name@ + "' requires an entrypoint path"@;
    text::law_gathered_holds_what_is_said(extensions, said, named);
    text::law_gathered_holds_what_is_said(extensions, said, versioned);
    text::law_gathered_holds_what_is_said(extensions, said, entered);
    let n: int = if text::blank(extension.name@) {
        1
    } else {
        0
    };
    if text::blank(extension.name@) {
        assert(lines[0] == named);
        assert(lines.contains(named));
    }
    if text::blank(extension.version@) {
        assert(lines[n] == versioned);
        assert(lines.contains(versioned));
    }
    if text::blank(extension.entrypoint.path@) {
        assert(lines[lines.len() - 1] == entered);
        assert(lines.contains(entered));
    }
}

/// A Process without a name is an error; a module it requires that the document
/// does not have is an error, and one it has and does not start a warning, each
/// naming the Process and the module; and an extension of it that leaves out its
/// name, version or path is an error.
pub proof fn law_a_process_is_reported(
    document: XmipConfigurationDocument,
    report: StartupValidationReport,
    at: int,
    required: int,
    extension: int,
)
    requires
        call_ensures(validate_startup_configuration, (&document,), report),
        0 <= at < document.xmip_processes@.len(),
    ensures
        ({
            let process = document.xmip_processes@[at];
            let owner = "Xmip Process '"@ + process.name@ + "'"@;
            &&& text::blank(process.name@) ==> among(
                report.errors@,
                "configured Xmip Process requires a name"@,
            )
            &&& 0 <= required < process.required_modules@.len() ==> {
                let name = process.required_modules@[required]@;
                &&& missing(document.modules@, name) ==> among(
                    report.errors@,
                    owner + " requires missing module '"@ + name + "'"@,
                )
                &&& stopped(document.modules@, name) ==> among(
                    report.warnings@,
                    owner + " requires module '"@ + name
                        + "', but it is configured not to start"@,
                )
            }
            &&& 0 <= extension < process.extensions@.len() ==> {
                let own = process.extensions@[extension];
                &&& text::blank(own.name@) ==> among(
                    report.errors@,
                    owner + " references an extension without a name"@,
                )
                &&& text::blank(own.version@) ==> among(
                    report.errors@,
                    "extension '"@ + own.name@ + "' requires a version"@,
                )
                &&& text::blank(own.entrypoint.path@) ==> among(
                    report.errors@,
                    "extension '"@ + own.name@ + "' requires an entrypoint path"@,
                )
            }
        }),
{
    let modules = document.modules@;
    let process = document.xmip_processes@[at];
    let owner = "Xmip Process '"@ + process.name@ + "'"@;
    let a = text::line_if(
        text::blank(process.name@),
        "configured Xmip Process requires a name"@,
    );
    let b = all_required_errors(modules, owner, process.required_modules@);
    let c = all_extension_errors(owner, process.extensions@);
    let whole = process_errors(modules, process);
    assert(owner == process_owner(process.name@));
    assert forall|line: Seq<char>| #[trigger] whole.contains(line) implies among(
        report.errors@,
        line,
    ) by {
        lemma_of_process(document, report, at, line);
    }
    assert forall|line: Seq<char>| #[trigger]
        process_warnings(modules, process).contains(line) implies among(report.warnings@, line) by {
        lemma_of_process(document, report, at, line);
    }
    assert forall|line: Seq<char>| a.contains(line) || b.contains(line) || c.contains(
        line,
    ) implies #[trigger] whole.contains(line) by {
        if a.contains(line) {
            let k = choose|k: int| 0 <= k < a.len() && a[k] == line;
            assert(whole[k] == line);
        } else if b.contains(line) {
            let k = choose|k: int| 0 <= k < b.len() && b[k] == line;
            assert(whole[a.len() + k] == line);
        } else {
            let k = choose|k: int| 0 <= k < c.len() && c[k] == line;
            assert(whole[a.len() + b.len() + k] == line);
        }
    }
    if text::blank(process.name@) {
        let line = "configured Xmip Process requires a name"@;
        assert(a[0] == line);
        assert(whole.contains(line));
    }
    if 0 <= required < process.required_modules@.len() {
        let name = process.required_modules@[required]@;
        lemma_required(modules, owner, process.required_modules@, required);
        let lacking = owner + " requires missing module '"@ + name + "'"@;
        assert(b.contains(lacking) ==> whole.contains(lacking));
        let idle = owner + " requires module '"@ + name + "', but it is configured not to start"@;
        let w = all_required_warnings(modules, owner, process.required_modules@);
        if w.contains(idle) {
            let k = choose|k: int| 0 <= k < w.len() && w[k] == idle;
            assert(process_warnings(modules, process)[k] == idle);
            assert(process_warnings(modules, process).contains(idle));
        }
    }
    if 0 <= extension < process.extensions@.len() {
        let own = process.extensions@[extension];
        lemma_extension(owner, process.extensions@, extension);
        let named = owner + " references an extension without a name"@;
        let versioned = "extension '"@ + own.name@ + "' requires a version"@;
        let entered = "extension '"@ + own.name@ + "' requires an entrypoint path"@;
        assert(c.contains(named) ==> whole.contains(named));
        assert(c.contains(versioned) ==> whole.contains(versioned));
        assert(c.contains(entered) ==> whole.contains(entered));
    }
}

/// The same of a Subprocess, which is named together with its Process.
pub proof fn law_a_subprocess_is_reported(
    document: XmipConfigurationDocument,
    report: StartupValidationReport,
    of: int,
    at: int,
    required: int,
    extension: int,
)
    requires
        call_ensures(validate_startup_configuration, (&document,), report),
        0 <= of < document.xmip_processes@.len(),
        0 <= at < document.xmip_processes@[of].xmip_subprocesses@.len(),
    ensures
        ({
            let process = document.xmip_processes@[of];
            let subprocess = process.xmip_subprocesses@[at];
            let owner = "Xmip Subprocess '"@ + subprocess.name@ + "' of Xmip Process '"@
                + process.name@ + "'"@;
            &&& text::blank(subprocess.name@) ==> among(
                report.errors@,
                "Xmip Process '"@ + process.name@ + "' has an Xmip Subprocess without a name"@,
            )
            &&& 0 <= required < subprocess.required_modules@.len() ==> {
                let name = subprocess.required_modules@[required]@;
                &&& missing(document.modules@, name) ==> among(
                    report.errors@,
                    owner + " requires missing module '"@ + name + "'"@,
                )
                &&& stopped(document.modules@, name) ==> among(
                    report.warnings@,
                    owner + " requires module '"@ + name
                        + "', but it is configured not to start"@,
                )
            }
            &&& 0 <= extension < subprocess.extensions@.len() ==> {
                let own = subprocess.extensions@[extension];
                &&& text::blank(own.name@) ==> among(
                    report.errors@,
                    owner + " references an extension without a name"@,
                )
                &&& text::blank(own.version@) ==> among(
                    report.errors@,
                    "extension '"@ + own.name@ + "' requires a version"@,
                )
                &&& text::blank(own.entrypoint.path@) ==> among(
                    report.errors@,
                    "extension '"@ + own.name@ + "' requires an entrypoint path"@,
                )
            }
        }),
{
    let modules = document.modules@;
    let process = document.xmip_processes@[of];
    let subprocess = process.xmip_subprocesses@[at];
    let owner = "Xmip Subprocess '"@ + subprocess.name@ + "' of Xmip Process '"@ + process.name@
        + "'"@;
    let unnamed = "Xmip Process '"@ + process.name@ + "' has an Xmip Subprocess without a name"@;
    let a = text::line_if(text::blank(subprocess.name@), unnamed);
    let b = all_required_errors(modules, owner, subprocess.required_modules@);
    let c = all_extension_errors(owner, subprocess.extensions@);
    let whole = subprocess_errors(modules, process.name@, subprocess);
    let warned = subprocess_warnings(modules, process.name@, subprocess);
    assert(owner == subprocess_owner(process.name@, subprocess.name@));
    assert forall|line: Seq<char>| #[trigger] whole.contains(line) implies among(
        report.errors@,
        line,
    ) by {
        lemma_of_subprocess(modules, process, at, line);
        lemma_of_process(document, report, of, line);
    }
    assert forall|line: Seq<char>| #[trigger] warned.contains(line) implies among(
        report.warnings@,
        line,
    ) by {
        lemma_of_subprocess(modules, process, at, line);
        lemma_of_process(document, report, of, line);
    }
    assert forall|line: Seq<char>| a.contains(line) || b.contains(line) || c.contains(
        line,
    ) implies #[trigger] whole.contains(line) by {
        if a.contains(line) {
            let k = choose|k: int| 0 <= k < a.len() && a[k] == line;
            assert(whole[k] == line);
        } else if b.contains(line) {
            let k = choose|k: int| 0 <= k < b.len() && b[k] == line;
            assert(whole[a.len() + k] == line);
        } else {
            let k = choose|k: int| 0 <= k < c.len() && c[k] == line;
            assert(whole[a.len() + b.len() + k] == line);
        }
    }
    if text::blank(subprocess.name@) {
        assert(a[0] == unnamed);
        assert(whole.contains(unnamed));
    }
    if 0 <= required < subprocess.required_modules@.len() {
        let name = subprocess.required_modules@[required]@;
        lemma_required(modules, owner, subprocess.required_modules@, required);
        let lacking = owner + " requires missing module '"@ + name + "'"@;
        assert(b.contains(lacking) ==> whole.contains(lacking));
        let idle = owner + " requires module '"@ + name + "', but it is configured not to start"@;
        assert(stopped(modules, name) ==> warned.contains(idle));
    }
    if 0 <= extension < subprocess.extensions@.len() {
        let own = subprocess.extensions@[extension];
        lemma_extension(owner, subprocess.extensions@, extension);
        let named = owner + " references an extension without a name"@;
        let versioned = "extension '"@ + own.name@ + "' requires a version"@;
        let entered = "extension '"@ + own.name@ + "' requires an entrypoint path"@;
        assert(c.contains(named) ==> whole.contains(named));
        assert(c.contains(versioned) ==> whole.contains(versioned));
        assert(c.contains(entered) ==> whole.contains(entered));
    }
}

/// A location without a name or without a transport is an error that says which
/// kind of location it is.
pub proof fn law_a_location_is_reported(
    document: XmipConfigurationDocument,
    report: StartupValidationReport,
    at: int,
)
    requires
        call_ensures(validate_startup_configuration, (&document,), report),
    ensures
        0 <= at < document.receive_locations@.len() ==> {
            let location = document.receive_locations@[at];
            &&& text::blank(location.name@) ==> among(
                report.errors@,
                "configured "@ + "Receive Location"@ + " requires a name"@,
            )
            &&& text::blank(location.transport@) ==> among(
                report.errors@,
                "Receive Location"@ + " '"@ + location.name@ + "' requires a transport"@,
            )
        },
        0 <= at < document.send_locations@.len() ==> {
            let location = document.send_locations@[at];
            &&& text::blank(location.name@) ==> among(
                report.errors@,
                "configured "@ + "Send Location"@ + " requires a name"@,
            )
            &&& text::blank(location.transport@) ==> among(
                report.errors@,
                "Send Location"@ + " '"@ + location.name@ + "' requires a transport"@,
            )
        },
{
    let receiving = |location: ConfiguredLocation| location_errors("Receive Location"@, location);
    let sending = |location: ConfiguredLocation| location_errors("Send Location"@, location);
    if 0 <= at < document.receive_locations@.len() {
        let part = text::gathered(document.receive_locations@, receiving);
        lemma_location("Receive Location"@, document.receive_locations@, at);
        assert forall|line: Seq<char>| #[trigger] part.contains(line) implies among(
            report.errors@,
            line,
        ) by {
            lemma_in_errors(document, part, line);
            lemma_among(report.errors@, line);
        }
    }
    if 0 <= at < document.send_locations@.len() {
        let part = text::gathered(document.send_locations@, sending);
        lemma_location("Send Location"@, document.send_locations@, at);
        assert forall|line: Seq<char>| #[trigger] part.contains(line) implies among(
            report.errors@,
            line,
        ) by {
            lemma_in_errors(document, part, line);
            lemma_among(report.errors@, line);
        }
    }
}

proof fn lemma_location(stage: Seq<char>, locations: Seq<ConfiguredLocation>, at: int)
    requires
        0 <= at < locations.len(),
    ensures
        text::blank(locations[at].name@) ==> text::gathered(
            locations,
            |location: ConfiguredLocation| location_errors(stage, location),
        ).contains("configured "@ + stage + " requires a name"@),
        text::blank(locations[at].transport@) ==> text::gathered(
            locations,
            |location: ConfiguredLocation| location_errors(stage, location),
        ).contains(stage + " '"@ + locations[at].name@ + "' requires a transport"@),
{
    let said = |location: ConfiguredLocation| location_errors(stage, location);
    let lines = said(locations[at]);
    let named = "configured "@ + stage + " requires a name"@;
    let reached = stage + " '"@ + locations[at].name@ + "' requires a transport"@;
    text::law_gathered_holds_what_is_said(locations, said, named);
    text::law_gathered_holds_what_is_said(locations, said, reached);
    if text::blank(locations[at].name@) {
        assert(lines[0] == named);
        assert(lines.contains(named));
    }
    if text::blank(locations[at].transport@) {
        assert(lines[lines.len() - 1] == reached);
        assert(lines.contains(reached));
    }
}

/// One where something holds, none where it does not.
pub open spec fn once(held: bool) -> nat {
    if held {
        1
    } else {
        0
    }
}

/// How many of the required modules the document does not have, and how many
/// things the extensions leave out.
pub open spec fn faults_of(
    modules: Seq<ModuleConfiguration>,
    required: Seq<String>,
    extensions: Seq<ExtensionManifest>,
) -> nat {
    text::total(required, |name: String| once(missing(modules, name@))) + text::total(
        extensions,
        |extension: ExtensionManifest|
            once(text::blank(extension.name@)) + once(text::blank(extension.version@)) + once(
                text::blank(extension.entrypoint.path@),
            ),
    )
}

/// How many locations have no name, and how many no transport.
pub open spec fn location_faults(locations: Seq<ConfiguredLocation>) -> nat {
    text::total(
        locations,
        |location: ConfiguredLocation|
            once(text::blank(location.name@)) + once(text::blank(location.transport@)),
    )
}

/// How many of the required modules the document has and does not start.
pub open spec fn idle(modules: Seq<ModuleConfiguration>, required: Seq<String>) -> nat {
    text::total(required, |name: String| once(stopped(modules, name@)))
}

/// There is one error for each fault and one warning for each thing that would
/// start the node degraded, and nothing else is reported.
pub proof fn law_nothing_else_is_reported(
    document: XmipConfigurationDocument,
    report: StartupValidationReport,
)
    requires
        call_ensures(validate_startup_configuration, (&document,), report),
    ensures
        report.errors@.len() == text::total(
            document.modules@,
            |module: ModuleConfiguration| once(text::blank(module.name@)),
        ) + text::total(
            document.xmip_processes@,
            |process: XmipProcessConfiguration|
                once(text::blank(process.name@)) + faults_of(
                    document.modules@,
                    process.required_modules@,
                    process.extensions@,
                ) + text::total(
                    process.xmip_subprocesses@,
                    |subprocess: XmipSubprocessConfiguration|
                        once(text::blank(subprocess.name@)) + faults_of(
                            document.modules@,
                            subprocess.required_modules@,
                            subprocess.extensions@,
                        ),
                ),
        ) + location_faults(document.receive_locations@) + location_faults(
            document.send_locations@,
        ),
        report.warnings@.len() == text::total(
            document.modules@,
            |module: ModuleConfiguration| once(module.manifest.capabilities@.len() == 0),
        ) + text::total(
            document.xmip_processes@,
            |process: XmipProcessConfiguration|
                idle(document.modules@, process.required_modules@) + text::total(
                    process.xmip_subprocesses@,
                    |subprocess: XmipSubprocessConfiguration|
                        idle(document.modules@, subprocess.required_modules@),
                ),
        ),
{
    let modules = document.modules@;
    assert(text::read(report.errors@).len() == report.errors@.len());
    assert(text::read(report.warnings@).len() == report.warnings@.len());
    text::law_gathered_counts_what_is_said(
        modules,
        |module: ModuleConfiguration| module_errors(module),
        |module: ModuleConfiguration| once(text::blank(module.name@)),
    );
    text::law_gathered_counts_what_is_said(
        modules,
        |module: ModuleConfiguration| module_warnings(module),
        |module: ModuleConfiguration| once(module.manifest.capabilities@.len() == 0),
    );
    let count = |process: XmipProcessConfiguration|
        once(text::blank(process.name@)) + faults_of(
            modules,
            process.required_modules@,
            process.extensions@,
        ) + text::total(
            process.xmip_subprocesses@,
            |subprocess: XmipSubprocessConfiguration|
                once(text::blank(subprocess.name@)) + faults_of(
                    modules,
                    subprocess.required_modules@,
                    subprocess.extensions@,
                ),
        );
    let warnings = |process: XmipProcessConfiguration|
        idle(modules, process.required_modules@) + text::total(
            process.xmip_subprocesses@,
            |subprocess: XmipSubprocessConfiguration| idle(modules, subprocess.required_modules@),
        );
    let said = |process: XmipProcessConfiguration| process_errors(modules, process);
    let warned = |process: XmipProcessConfiguration| process_warnings(modules, process);
    assert forall|i: int| 0 <= i < document.xmip_processes@.len() implies said(
        #[trigger] document.xmip_processes@[i],
    ).len() == count(document.xmip_processes@[i]) && warned(document.xmip_processes@[i]).len()
        == warnings(document.xmip_processes@[i]) by {
        lemma_process_counts(modules, document.xmip_processes@[i]);
    }
    text::law_gathered_counts_what_is_said(document.xmip_processes@, said, count);
    text::law_gathered_counts_what_is_said(document.xmip_processes@, warned, warnings);
    lemma_location_counts("Receive Location"@, document.receive_locations@);
    lemma_location_counts("Send Location"@, document.send_locations@);
}

proof fn lemma_location_counts(stage: Seq<char>, locations: Seq<ConfiguredLocation>)
    ensures
        text::gathered(
            locations,
            |location: ConfiguredLocation| location_errors(stage, location),
        ).len() == location_faults(locations),
{
    text::law_gathered_counts_what_is_said(
        locations,
        |location: ConfiguredLocation| location_errors(stage, location),
        |location: ConfiguredLocation|
            once(text::blank(location.name@)) + once(text::blank(location.transport@)),
    );
}

proof fn lemma_required_counts(
    modules: Seq<ModuleConfiguration>,
    owner: Seq<char>,
    required: Seq<String>,
    extensions: Seq<ExtensionManifest>,
)
    ensures
        all_required_errors(modules, owner, required).len() + all_extension_errors(
            owner,
            extensions,
        ).len() == faults_of(modules, required, extensions),
        all_required_warnings(modules, owner, required).len() == idle(modules, required),
{
    let said = |name: String| required_errors(modules, owner, name@);
    let lacking = |name: String| once(missing(modules, name@));
    assert forall|i: int| 0 <= i < required.len() implies said(#[trigger] required[i]).len()
        == lacking(required[i]) by {
        lemma_missing(modules, required[i]@);
    }
    text::law_gathered_counts_what_is_said(required, said, lacking);
    let warned = |name: String| required_warnings(modules, owner, name@);
    let idling = |name: String| once(stopped(modules, name@));
    assert forall|i: int| 0 <= i < required.len() implies warned(#[trigger] required[i]).len()
        == idling(required[i]) by {
        lemma_missing(modules, required[i]@);
    }
    text::law_gathered_counts_what_is_said(required, warned, idling);
    text::law_gathered_counts_what_is_said(
        extensions,
        |extension: ExtensionManifest| extension_errors(owner, extension),
        |extension: ExtensionManifest|
            once(text::blank(extension.name@)) + once(text::blank(extension.version@)) + once(
                text::blank(extension.entrypoint.path@),
            ),
    );
}

proof fn lemma_missing(modules: Seq<ModuleConfiguration>, name: Seq<char>)
    ensures
        missing(modules, name) <==> !configured(modules, name),
        stopped(modules, name) <==> configured(modules, name) && !started(modules, name),
{
    if !missing(modules, name) {
        let i = choose|i: int| 0 <= i < modules.len() && (#[trigger] modules[i]).name@ == name;
        assert(modules[i].name@ == name);
    }
    if started(modules, name) {
        let i = choose|i: int|
            0 <= i < modules.len() && #[trigger] modules[i].name@ == name && modules[i].start;
        assert(modules[i].name@ == name);
    }
    if configured(modules, name) && !started(modules, name) {
        let i = choose|i: int| 0 <= i < modules.len() && #[trigger] modules[i].name@ == name;
        assert(modules[i].name@ == name);
        assert forall|k: int|
            0 <= k < modules.len() && (#[trigger] modules[k]).name@
                == name implies !modules[k].start by {
            assert(modules[k].name@ == name);
        }
    }
}

proof fn lemma_process_counts(
    modules: Seq<ModuleConfiguration>,
    process: XmipProcessConfiguration,
)
    ensures
        process_errors(modules, process).len() == once(text::blank(process.name@)) + faults_of(
            modules,
            process.required_modules@,
            process.extensions@,
        ) + text::total(
            process.xmip_subprocesses@,
            |subprocess: XmipSubprocessConfiguration|
                once(text::blank(subprocess.name@)) + faults_of(
                    modules,
                    subprocess.required_modules@,
                    subprocess.extensions@,
                ),
        ),
        process_warnings(modules, process).len() == idle(modules, process.required_modules@)
            + text::total(
            process.xmip_subprocesses@,
            |subprocess: XmipSubprocessConfiguration| idle(modules, subprocess.required_modules@),
        ),
{
    lemma_required_counts(
        modules,
        process_owner(process.name@),
        process.required_modules@,
        process.extensions@,
    );
    let subprocesses = process.xmip_subprocesses@;
    let said = |subprocess: XmipSubprocessConfiguration|
        subprocess_errors(modules, process.name@, subprocess);
    let count = |subprocess: XmipSubprocessConfiguration|
        once(text::blank(subprocess.name@)) + faults_of(
            modules,
            subprocess.required_modules@,
            subprocess.extensions@,
        );
    let warned = |subprocess: XmipSubprocessConfiguration|
        subprocess_warnings(modules, process.name@, subprocess);
    let idling = |subprocess: XmipSubprocessConfiguration|
        idle(modules, subprocess.required_modules@);
    assert forall|i: int| 0 <= i < subprocesses.len() implies said(
        #[trigger] subprocesses[i],
    ).len() == count(subprocesses[i]) && warned(subprocesses[i]).len() == idling(
        subprocesses[i],
    ) by {
        lemma_required_counts(
            modules,
            subprocess_owner(process.name@, subprocesses[i].name@),
            subprocesses[i].required_modules@,
            subprocesses[i].extensions@,
        );
    }
    text::law_gathered_counts_what_is_said(subprocesses, said, count);
    text::law_gathered_counts_what_is_said(subprocesses, warned, idling);
}

/// A tree is built exactly where validating finds no error, and either way the
/// report is the one that validating gives.
pub proof fn law_only_a_document_without_errors_is_built(
    document: XmipConfigurationDocument,
    report: StartupValidationReport,
    built: Result<(ExecutionTree, StartupValidationReport), StartupValidationReport>,
)
    requires
        call_ensures(validate_startup_configuration, (&document,), report),
        call_ensures(build_execution_tree, (document,), built),
    ensures
        built is Ok <==> report.errors@.len() == 0,
        built matches Ok((tree, own)) ==> own.errors@.len() == 0 && text::read(own.warnings@)
            == text::read(report.warnings@),
        built matches Err(own) ==> text::read(own.errors@) == text::read(report.errors@)
            && text::read(own.warnings@) == text::read(report.warnings@),
{
    assert(text::read(report.errors@).len() == report.errors@.len());
}

/// A report is valid where it has no error, whatever it warns of.
pub proof fn law_a_warning_does_not_invalidate(report: StartupValidationReport, valid: bool)
    requires
        call_ensures(StartupValidationReport::is_valid, (&report,), valid),
    ensures
        valid <==> report.errors@.len() == 0,
{
}

/// A required module adds one error where the document does not have it, one
/// warning where it has it and does not start it, and nothing where it starts;
/// what was reported before stays.
pub proof fn law_a_required_module_adds_what_is_wrong_with_it(
    required: &str,
    modules: Vec<ModuleConfiguration>,
    errors: &mut Vec<String>,
    warnings: &mut Vec<String>,
    owner: &str,
)
    requires
        call_ensures(
            validate_required_module,
            (required, &modules, errors, warnings, owner),
            (),
        ),
    ensures
        missing(modules@, required@) ==> text::read(final(errors)@) == text::read(
            old(errors)@,
        ).push(owner@ + " requires missing module '"@ + required@ + "'"@),
        !missing(modules@, required@) ==> text::read(final(errors)@) == text::read(old(errors)@),
        stopped(modules@, required@) ==> text::read(final(warnings)@) == text::read(
            old(warnings)@,
        ).push(
            owner@ + " requires module '"@ + required@ + "', but it is configured not to start"@,
        ),
        !stopped(modules@, required@) ==> text::read(final(warnings)@) == text::read(
            old(warnings)@,
        ),
{
    lemma_missing(modules@, required@);
    let e = text::read(old(errors)@);
    let w = text::read(old(warnings)@);
    let lacking = owner@ + " requires missing module '"@ + required@ + "'"@;
    let idling = owner@ + " requires module '"@ + required@
        + "', but it is configured not to start"@;
    assert(e + seq![lacking] =~= e.push(lacking));
    assert(e + Seq::<Seq<char>>::empty() =~= e);
    assert(w + seq![idling] =~= w.push(idling));
    assert(w + Seq::<Seq<char>>::empty() =~= w);
}

} // verus!
