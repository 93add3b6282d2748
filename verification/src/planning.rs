//! Which Host Services a node runs: one for each registered Module, in the
//! process its capabilities are written for.

use vstd::prelude::*;
use vstd::string::*;

use crate::abi::{ExecutionHostKind, ExtensionManifest, ModuleCapability, ModuleManifest};
use crate::text;

verus! {

#[derive(Clone, Debug, PartialEq, Eq)]
pub struct RuntimeNode {
    pub cluster_name: String,
    pub node_name: String,
    pub roles: Vec<NodeRole>,
    pub host_services: Vec<HostServicePlan>,
}

#[derive(Clone, Copy, Debug, PartialEq, Eq, Structural)]
pub enum NodeRole {
    Operational,
    Monitoring,
    Executing,
    Development,
}

#[derive(Clone, Debug, PartialEq, Eq)]
pub struct HostServicePlan {
    pub host_type: String,
    pub trusted: bool,
    pub bitness: HostBitness,
    pub modules: Vec<ModuleManifest>,
    pub verified_extensions: Vec<ExtensionManifest>,
}

/// Execution width of the Host Service.
///
/// Classical variants are the address width of the process. `Qubit` carries a
/// count, because quantum hardware is described by how many qubits it offers
/// rather than by a single width.
#[derive(Clone, Copy, Debug, PartialEq, Eq, Structural)]
pub enum HostBitness {
    Bit32,
    Bit64,
    Bit128,
    Qubit(u64),
    Native,
}

/// What an execution host is called.
pub open spec fn host_name(host: ExecutionHostKind) -> Seq<char> {
    match host {
        ExecutionHostKind::NativeRust => "native-rust"@,
        ExecutionHostKind::DotNet => "dotnet"@,
        ExecutionHostKind::Java => "java"@,
        ExecutionHostKind::Python => "python"@,
        ExecutionHostKind::CAbi => "c-abi"@,
        ExecutionHostKind::Go => "go"@,
        ExecutionHostKind::PowerShell => "powershell"@,
        ExecutionHostKind::Bash => "bash"@,
    }
}

/// Every execution host, in the order of their names.
pub open spec fn hosts_by_name() -> Seq<ExecutionHostKind> {
    seq![
        ExecutionHostKind::Bash,
        ExecutionHostKind::CAbi,
        ExecutionHostKind::DotNet,
        ExecutionHostKind::Go,
        ExecutionHostKind::Java,
        ExecutionHostKind::NativeRust,
        ExecutionHostKind::PowerShell,
        ExecutionHostKind::Python,
    ]
}

/// Some capability runs in `host`.
pub open spec fn used(capabilities: Seq<ModuleCapability>, host: ExecutionHostKind) -> bool {
    exists|i: int|
        0 <= i < capabilities.len() && (#[trigger] capabilities[i]).execution_host == host
}

/// Some capability may only run trusted.
pub open spec fn trust_required(capabilities: Seq<ModuleCapability>) -> bool {
    exists|i: int| 0 <= i < capabilities.len() && (#[trigger] capabilities[i]).trusted_required
}

/// The names of the hosts the capabilities run in, each once, in order.
pub open spec fn hosts_used(capabilities: Seq<ModuleCapability>) -> Seq<Seq<char>> {
    hosts_by_name().filter(|host: ExecutionHostKind| used(capabilities, host)).map_values(
        |host: ExecutionHostKind| host_name(host),
    )
}

/// Which Host Service capabilities need. Capabilities that disagree about
/// their execution host are named as the mixture they are.
pub open spec fn host_type(capabilities: Seq<ModuleCapability>) -> Seq<char> {
    let hosts = hosts_used(capabilities);
    if hosts.len() == 0 {
        "native-rust-host"@
    } else if hosts.len() == 1 {
        hosts[0] + "-host"@
    } else {
        "mixed-host("@ + text::joined(hosts, "+"@) + ")"@
    }
}

/// `plan` is what `manifest` runs in: a Host Service of its own, with nothing
/// else in it.
pub open spec fn plans(plan: HostServicePlan, manifest: ModuleManifest) -> bool {
    &&& plan.host_type@ == host_type(manifest.capabilities@)
    &&& plan.trusted == trust_required(manifest.capabilities@)
    &&& plan.bitness == HostBitness::Native
    &&& plan.modules@.len() == 1
    &&& plan.modules@[0]@ == manifest@
    &&& plan.verified_extensions@.len() == 0
}

/// The Modules a node knows, in the order they were registered.
#[derive(Clone, Debug)]
pub struct ModuleRegistry {
    manifests: Vec<ModuleManifest>,
}

impl View for ModuleRegistry {
    type V = Seq<ModuleManifest>;

    closed spec fn view(&self) -> Seq<ModuleManifest> {
        self.manifests@
    }
}

impl Default for ModuleRegistry {
    fn default() -> (r: Self)
        ensures
            r@ == Seq::<ModuleManifest>::empty(),
    {
        ModuleRegistry { manifests: Vec::new() }
    }
}

impl ModuleRegistry {
    pub fn register(&mut self, manifest: ModuleManifest)
        ensures
            final(self)@ == old(self)@.push(manifest),
    {
        self.manifests.push(manifest);
    }

    pub fn manifests(&self) -> (r: &[ModuleManifest])
        ensures
            r@ == self@,
    {
        self.manifests.as_slice()
    }

    /// One Host Service for each registered Module, in the order they were
    /// registered.
    pub fn plan_host_services(&self, cluster_name: &str, node_name: &str) -> (r: RuntimeNode)
        ensures
            r.cluster_name@ == cluster_name@,
            r.node_name@ == node_name@,
            r.roles@ == seq![NodeRole::Operational, NodeRole::Executing],
            r.host_services@.len() == self@.len(),
            forall|i: int| 0 <= i < self@.len() ==> plans(#[trigger] r.host_services@[i], self@[i]),
    {
        let mut host_services: Vec<HostServicePlan> = Vec::new();
        let mut at: usize = 0;
        while at < self.manifests.len()
            invariant
                at <= self@.len(),
                self@ == self.manifests@,
                host_services@.len() == at,
                forall|i: int| 0 <= i < at ==> plans(#[trigger] host_services@[i], self@[i]),
            decreases self@.len() - at,
        {
            host_services.push(plan_for(&self.manifests[at]));
            at += 1;
        }
        RuntimeNode {
            cluster_name: cluster_name.to_string(),
            node_name: node_name.to_string(),
            roles: vec![NodeRole::Operational, NodeRole::Executing],
            host_services,
        }
    }
}

fn plan_for(module: &ModuleManifest) -> (r: HostServicePlan)
    ensures
        plans(r, *module),
{
    HostServicePlan {
        host_type: host_type_for(module),
        trusted: any_trusted(&module.capabilities),
        bitness: HostBitness::Native,
        modules: vec![module.clone()],
        verified_extensions: Vec::new(),
    }
}

fn any_trusted(capabilities: &Vec<ModuleCapability>) -> (r: bool)
    ensures
        r == trust_required(capabilities@),
{
    let mut at: usize = 0;
    while at < capabilities.len()
        invariant
            at <= capabilities@.len(),
            forall|i: int| 0 <= i < at ==> !(#[trigger] capabilities@[i]).trusted_required,
        decreases capabilities@.len() - at,
    {
        if capabilities[at].trusted_required {
            return true;
        }
        at += 1;
    }
    false
}

fn runs_in(capabilities: &Vec<ModuleCapability>, host: ExecutionHostKind) -> (r: bool)
    ensures
        r == used(capabilities@, host),
{
    let mut at: usize = 0;
    while at < capabilities.len()
        invariant
            at <= capabilities@.len(),
            forall|i: int| 0 <= i < at ==> (#[trigger] capabilities@[i]).execution_host != host,
        decreases capabilities@.len() - at,
    {
        if capabilities[at].execution_host == host {
            return true;
        }
        at += 1;
    }
    false
}

/// Which Host Service a Module needs: what decides the host process is what
/// the Module is written in.
pub fn host_type_for(module: &ModuleManifest) -> (r: String)
    ensures
        r@ == host_type(module.capabilities@),
{
    let all = [
        ExecutionHostKind::Bash,
        ExecutionHostKind::CAbi,
        ExecutionHostKind::DotNet,
        ExecutionHostKind::Go,
        ExecutionHostKind::Java,
        ExecutionHostKind::NativeRust,
        ExecutionHostKind::PowerShell,
        ExecutionHostKind::Python,
    ];
    assert(all@ =~= hosts_by_name());
    let ghost runs = |host: ExecutionHostKind| used(module.capabilities@, host);
    let ghost names = |host: ExecutionHostKind| host_name(host);
    let mut hosts: Vec<String> = Vec::new();
    let mut at: usize = 0;
    while at < 8
        invariant
            at <= 8,
            all@ == hosts_by_name(),
            runs == (|host: ExecutionHostKind| used(module.capabilities@, host)),
            names == (|host: ExecutionHostKind| host_name(host)),
            text::read(hosts@) =~= hosts_by_name().take(at as int).filter(runs).map_values(names),
        decreases 8 - at,
    {
        proof {
            assert(hosts_by_name().take(at + 1).drop_last() =~= hosts_by_name().take(at as int));
            reveal(Seq::filter);
        }
        if runs_in(&module.capabilities, all[at]) {
            text::push_line(&mut hosts, execution_host_name(all[at]).to_string());
        }
        at += 1;
    }
    assert(hosts_by_name().take(8) =~= hosts_by_name());
    assert(text::read(hosts@) == hosts_used(module.capabilities@));

    if hosts.len() == 0 {
        "native-rust-host".to_string()
    } else if hosts.len() == 1 {
        hosts[0].clone().concat("-host")
    } else {
        "mixed-host(".to_string().concat(text::join(hosts.as_slice(), "+").as_str()).concat(")")
    }
}

pub fn execution_host_name(host: ExecutionHostKind) -> (r: &'static str)
    ensures
        r@ == host_name(host),
{
    match host {
        ExecutionHostKind::NativeRust => "native-rust",
        ExecutionHostKind::DotNet => "dotnet",
        ExecutionHostKind::Java => "java",
        ExecutionHostKind::Python => "python",
        ExecutionHostKind::CAbi => "c-abi",
        ExecutionHostKind::Go => "go",
        ExecutionHostKind::PowerShell => "powershell",
        ExecutionHostKind::Bash => "bash",
    }
}

/// A Host Service is named by the hosts its capabilities run in and by
/// nothing else: not by their order, nor by how many there are of each.
pub proof fn law_the_host_type_is_the_set_of_hosts(
    one: Seq<ModuleCapability>,
    other: Seq<ModuleCapability>,
)
    requires
        forall|host: ExecutionHostKind| used(one, host) == used(other, host),
    ensures
        host_type(one) == host_type(other),
{
    let of_one = |host: ExecutionHostKind| used(one, host);
    let of_other = |host: ExecutionHostKind| used(other, host);
    assert(of_one =~= of_other);
}

/// The capabilities run in native Rust, if they run in anything.
pub open spec fn native_at_most(capabilities: Seq<ModuleCapability>) -> bool {
    forall|host: ExecutionHostKind|
        used(capabilities, host) ==> host == ExecutionHostKind::NativeRust
}

/// Two Host Services of one name have the same hosts, except that no host at
/// all and native Rust alone are both named as native Rust.
pub proof fn law_the_host_type_tells_the_hosts(
    one: Seq<ModuleCapability>,
    other: Seq<ModuleCapability>,
)
    ensures
        host_type(one) == host_type(other) <==> (native_at_most(one) && native_at_most(other)) || (
        forall|host: ExecutionHostKind| used(one, host) == used(other, host)),
{
    let a = hosts_used(one);
    let b = hosts_used(other);
    law_hosts_are_named_once_in_order(one);
    law_hosts_are_named_once_in_order(other);
    lemma_native_at_most(one);
    lemma_native_at_most(other);
    if forall|host: ExecutionHostKind| used(one, host) == used(other, host) {
        law_the_host_type_is_the_set_of_hosts(one, other);
    }
    if host_type(one) == host_type(other) && !(native_at_most(one) && native_at_most(other)) {
        lemma_same_hosts(one, other);
        assert(a == b);
        assert forall|host: ExecutionHostKind| used(one, host) == used(other, host) by {
            assert(a.contains(host_name(host)) == b.contains(host_name(host)));
        }
    }
}

/// Native Rust gives its name to the Host Service where there is no other host,
/// and only there.
proof fn lemma_native_at_most(capabilities: Seq<ModuleCapability>)
    ensures
        native_at_most(capabilities) <==> host_type(capabilities) == "native-rust-host"@,
        native_at_most(capabilities) <==> hosts_used(capabilities).len() == 0 || (hosts_used(
            capabilities,
        ).len() == 1 && hosts_used(capabilities)[0] == "native-rust"@),
{
    let names = hosts_used(capabilities);
    law_hosts_are_named_once_in_order(capabilities);
    lemma_names_in_order();
    lemma_names(capabilities);
    reveal_strlit("native-rust-host");
    reveal_strlit("native-rust");
    reveal_strlit("-host");
    reveal_strlit("mixed-host(");
    assert("native-rust"@ + "-host"@ =~= "native-rust-host"@);
    if native_at_most(capabilities) {
        assert forall|i: int| 0 <= i < names.len() implies #[trigger] names[i]
            == "native-rust"@ by {
            let host = choose|host: ExecutionHostKind| names[i] == #[trigger] host_name(host);
            assert(names.contains(host_name(host)));
        }
        if names.len() > 1 {
            assert(text::before(names[0], names[1]));
            text::lemma_before_is_total(names[0], names[1]);
        }
    } else {
        let host = choose|host: ExecutionHostKind|
            used(capabilities, host) && host != ExecutionHostKind::NativeRust;
        assert(names.contains(host_name(host)));
        let at = choose|at: int| 0 <= at < names.len() && names[at] == host_name(host);
        assert(host_name(host) != host_name(ExecutionHostKind::NativeRust));
        if names.len() == 1 {
            if names[0] + "-host"@ == "native-rust-host"@ {
                text::lemma_same_ending(names[0], "native-rust"@, "-host"@);
            }
        } else {
            assert(host_type(capabilities)[0] == 'm');
            assert("native-rust-host"@[0] == 'n');
        }
    }
}

/// Every name is that of a host; none is empty, begins as a mixture does or
/// holds what stands between the names of one.
proof fn lemma_names(capabilities: Seq<ModuleCapability>)
    ensures
        forall|i: int|
            0 <= i < hosts_used(capabilities).len() ==> {
                let name = #[trigger] hosts_used(capabilities)[i];
                &&& exists|host: ExecutionHostKind| name == #[trigger] host_name(host)
                &&& name.len() > 0
                &&& name[0] != 'm'
                &&& !name.contains('+')
            },
{
    let names = hosts_used(capabilities);
    let kept = hosts_by_name().filter(|host: ExecutionHostKind| used(capabilities, host));
    assert forall|i: int| 0 <= i < names.len() implies {
        let name = #[trigger] names[i];
        &&& exists|host: ExecutionHostKind| name == #[trigger] host_name(host)
        &&& name.len() > 0
        &&& name[0] != 'm'
        &&& !name.contains('+')
    } by {
        assert(names[i] == host_name(kept[i]));
        lemma_plain_name(kept[i]);
    }
}

proof fn lemma_plain_name(host: ExecutionHostKind)
    ensures
        host_name(host).len() > 0,
        host_name(host)[0] != 'm',
        !host_name(host).contains('+'),
{
    reveal_strlit("native-rust");
    reveal_strlit("dotnet");
    reveal_strlit("java");
    reveal_strlit("python");
    reveal_strlit("c-abi");
    reveal_strlit("go");
    reveal_strlit("powershell");
    reveal_strlit("bash");
}

/// Of one name, and not both in native Rust alone or in nothing: the same
/// hosts.
proof fn lemma_same_hosts(one: Seq<ModuleCapability>, other: Seq<ModuleCapability>)
    requires
        host_type(one) == host_type(other),
        !(native_at_most(one) && native_at_most(other)),
    ensures
        hosts_used(one) == hosts_used(other),
{
    let a = hosts_used(one);
    let b = hosts_used(other);
    lemma_native_at_most(one);
    lemma_native_at_most(other);
    lemma_names(one);
    lemma_names(other);
    reveal_strlit("mixed-host(");
    reveal_strlit("+");
    assert("+"@ =~= seq!['+']);
    if a.len() == 1 && b.len() == 1 {
        text::lemma_same_ending(a[0], b[0], "-host"@);
        assert(a =~= b);
    } else if a.len() == 1 {
        assert(host_type(one)[0] == a[0][0]);
        assert(host_type(other)[0] == 'm');
    } else if b.len() == 1 {
        assert(host_type(other)[0] == b[0][0]);
        assert(host_type(one)[0] == 'm');
    } else {
        let x = text::joined(a, "+"@);
        let y = text::joined(b, "+"@);
        text::lemma_same_ending("mixed-host("@ + x, "mixed-host("@ + y, ")"@);
        text::lemma_same_opening("mixed-host("@, x, y);
        text::lemma_joined_apart(a, b, '+');
    }
}

/// The hosts of a mixture are the ones used, in the order of their names and
/// none of them twice.
pub proof fn law_hosts_are_named_once_in_order(capabilities: Seq<ModuleCapability>)
    ensures
        forall|host: ExecutionHostKind|
            hosts_used(capabilities).contains(#[trigger] host_name(host)) <==> used(
                capabilities,
                host,
            ),
        forall|i: int, j: int|
            0 <= i < j < hosts_used(capabilities).len() ==> text::before(
                #[trigger] hosts_used(capabilities)[i],
                #[trigger] hosts_used(capabilities)[j],
            ),
{
    let all = hosts_by_name();
    let runs = |host: ExecutionHostKind| used(capabilities, host);
    let kept = all.filter(runs);
    let names = hosts_used(capabilities);
    lemma_names_in_order();
    lemma_filter_in_order(all, runs);
    assert forall|i: int, j: int| 0 <= i < j < names.len() implies text::before(
        #[trigger] names[i],
        #[trigger] names[j],
    ) by {
        assert(in_order(all, kept[i], kept[j]));
        let (p, q) = choose|p: int, q: int|
            0 <= p < q < all.len() && #[trigger] all[p] == kept[i] && #[trigger] all[q] == kept[j];
        assert(text::before(host_name(all[p]), host_name(all[q])));
    }
    assert forall|host: ExecutionHostKind|
        names.contains(#[trigger] host_name(host)) <==> used(capabilities, host) by {
        if names.contains(host_name(host)) {
            let i = choose|i: int| 0 <= i < names.len() && names[i] == host_name(host);
            assert(kept[i] == host);
            assert(kept.contains(host));
            all.lemma_filter_contains_rev(runs, host);
        }
        if used(capabilities, host) {
            assert(all.contains(host)) by {
                let at: int = match host {
                    ExecutionHostKind::Bash => 0,
                    ExecutionHostKind::CAbi => 1,
                    ExecutionHostKind::DotNet => 2,
                    ExecutionHostKind::Go => 3,
                    ExecutionHostKind::Java => 4,
                    ExecutionHostKind::NativeRust => 5,
                    ExecutionHostKind::PowerShell => 6,
                    ExecutionHostKind::Python => 7,
                };
                assert(all[at] == host);
            }
            let p = choose|p: int| 0 <= p < all.len() && all[p] == host;
            all.lemma_filter_contains(runs, p);
            let i = choose|i: int| 0 <= i < kept.len() && kept[i] == host;
            assert(names[i] == host_name(host));
        }
    }
}

/// The eight names, told apart and in order.
proof fn lemma_names_in_order()
    ensures
        forall|p: int, q: int|
            0 <= p < q < hosts_by_name().len() ==> text::before(
                host_name(#[trigger] hosts_by_name()[p]),
                host_name(#[trigger] hosts_by_name()[q]),
            ),
        forall|one: ExecutionHostKind, other: ExecutionHostKind|
            #[trigger] host_name(one) == #[trigger] host_name(other) ==> one == other,
{
    reveal_strlit("native-rust");
    reveal_strlit("dotnet");
    reveal_strlit("java");
    reveal_strlit("python");
    reveal_strlit("c-abi");
    reveal_strlit("go");
    reveal_strlit("powershell");
    reveal_strlit("bash");
    assert forall|p: int, q: int| 0 <= p < q < hosts_by_name().len() implies text::before(
        host_name(#[trigger] hosts_by_name()[p]),
        host_name(#[trigger] hosts_by_name()[q]),
    ) by {
        let a = host_name(hosts_by_name()[p]);
        let b = host_name(hosts_by_name()[q]);
        if a[0] == b[0] {
            assert(a.drop_first()[0] == a[1] && b.drop_first()[0] == b[1]);
            assert(text::before(a.drop_first(), b.drop_first()));
        }
    }
    assert forall|one: ExecutionHostKind, other: ExecutionHostKind|
        #[trigger] host_name(one) == #[trigger] host_name(other) implies one == other by {
        assert(host_name(one).len() == host_name(other).len());
        assert(host_name(one)[0] == host_name(other)[0]);
    }
}

/// `one` stands in `items` at a place before one where `other` stands.
spec fn in_order<T>(items: Seq<T>, one: T, other: T) -> bool {
    exists|p: int, q: int|
        0 <= p < q < items.len() && #[trigger] items[p] == one && #[trigger] items[q] == other
}

/// Filtering keeps the order: two kept items come from two places in order.
proof fn lemma_filter_in_order<T>(items: Seq<T>, wanted: spec_fn(T) -> bool)
    ensures
        forall|i: int, j: int|
            0 <= i < j < items.filter(wanted).len() ==> in_order(
                items,
                #[trigger] items.filter(wanted)[i],
                #[trigger] items.filter(wanted)[j],
            ),
    decreases items.len(),
{
    reveal(Seq::filter);
    if items.len() > 0 {
        let rest = items.drop_last();
        lemma_filter_in_order(rest, wanted);
        let kept = items.filter(wanted);
        let inner = rest.filter(wanted);
        assert forall|i: int, j: int| 0 <= i < j < kept.len() implies in_order(
            items,
            #[trigger] kept[i],
            #[trigger] kept[j],
        ) by {
            if j < inner.len() {
                assert(in_order(rest, inner[i], inner[j]));
                let (p, q) = choose|p: int, q: int|
                    0 <= p < q < rest.len() && #[trigger] rest[p] == inner[i] && #[trigger] rest[q]
                        == inner[j];
                assert(items[p] == kept[i] && items[q] == kept[j]);
            } else {
                assert(inner.contains(inner[i]));
                rest.lemma_filter_contains_rev(wanted, inner[i]);
                let p = choose|p: int| 0 <= p < rest.len() && rest[p] == inner[i];
                assert(items[p] == kept[i] && items[items.len() - 1] == kept[j]);
            }
        }
    }
}

/// A node plans one Host Service for each Module, in the order they were
/// registered: with that Module in it and nothing else, trusted exactly where
/// one of the Module's capabilities may only run trusted.
pub proof fn law_every_module_has_its_own_host_service(
    registry: ModuleRegistry,
    cluster: &str,
    name: &str,
    node: RuntimeNode,
    at: int,
)
    requires
        call_ensures(ModuleRegistry::plan_host_services, (&registry, cluster, name), node),
    ensures
        node.cluster_name@ == cluster@,
        node.node_name@ == name@,
        node.roles@.len() == 2,
        node.roles@.contains(NodeRole::Operational),
        node.roles@.contains(NodeRole::Executing),
        node.host_services@.len() == registry@.len(),
        0 <= at < registry@.len() ==> {
            let plan = node.host_services@[at];
            let module = registry@[at];
            &&& plan.modules@.len() == 1
            &&& plan.modules@[0].identity == module.identity
            &&& plan.modules@[0].capabilities@ == module.capabilities@
            &&& plan.modules@[0].entrypoint == module.entrypoint
            &&& plan.verified_extensions@.len() == 0
            &&& plan.bitness == HostBitness::Native
            &&& plan.trusted <==> exists|i: int|
                0 <= i < module.capabilities@.len() && (
                #[trigger] module.capabilities@[i]).trusted_required
        },
{
    assert(node.roles@[0] == NodeRole::Operational);
    assert(node.roles@[1] == NodeRole::Executing);
    if 0 <= at < registry@.len() {
        assert(plans(node.host_services@[at], registry@[at]));
    }
}

/// A Host Service is called by what its Module is written in: by the one host
/// all its capabilities run in, by native Rust where it has none, and otherwise
/// by a mixture that names the host of every capability.
pub proof fn law_a_host_service_is_called_by_what_its_module_is_written_in(
    module: ModuleManifest,
    name: String,
    at: int,
    own: &str,
)
    requires
        call_ensures(host_type_for, (&module,), name),
        0 <= at < module.capabilities@.len() ==> call_ensures(
            execution_host_name,
            (module.capabilities@[at].execution_host,),
            own,
        ),
    ensures
        module.capabilities@.len() == 0 ==> name@ == "native-rust-host"@,
        0 <= at < module.capabilities@.len() ==> {
            &&& text::holds(name@, own@)
            &&& (forall|i: int|
                0 <= i < module.capabilities@.len() ==> (
                #[trigger] module.capabilities@[i]).execution_host
                    == module.capabilities@[at].execution_host) ==> name@ == own@ + "-host"@
            &&& (exists|i: int|
                0 <= i < module.capabilities@.len() && (
                #[trigger] module.capabilities@[i]).execution_host
                    != module.capabilities@[at].execution_host) ==> name@.take(11)
                == "mixed-host("@ && name@.last() == ')'
        },
{
    let capabilities = module.capabilities@;
    if capabilities.len() == 0 {
        lemma_no_host(capabilities);
    } else if 0 <= at < capabilities.len() {
        let host = capabilities[at].execution_host;
        assert(used(capabilities, host));
        lemma_named(capabilities, host);
        if forall|i: int|
            0 <= i < capabilities.len() ==> (#[trigger] capabilities[i]).execution_host == host {
            lemma_one_host(capabilities, host);
        } else {
            let i = choose|i: int|
                0 <= i < capabilities.len() && (#[trigger] capabilities[i]).execution_host != host;
            assert(used(capabilities, capabilities[i].execution_host));
            lemma_mixed(capabilities, host, capabilities[i].execution_host);
        }
    }
}

proof fn lemma_no_host(capabilities: Seq<ModuleCapability>)
    requires
        capabilities.len() == 0,
    ensures
        host_type(capabilities) == "native-rust-host"@,
{
    let names = hosts_used(capabilities);
    law_hosts_are_named_once_in_order(capabilities);
    lemma_names(capabilities);
    if names.len() > 0 {
        let host = choose|host: ExecutionHostKind| names[0] == #[trigger] host_name(host);
        assert(names.contains(host_name(host)));
        assert(used(capabilities, host));
    }
}

proof fn lemma_named(capabilities: Seq<ModuleCapability>, host: ExecutionHostKind)
    requires
        used(capabilities, host),
    ensures
        text::holds(host_type(capabilities), host_name(host)),
{
    let names = hosts_used(capabilities);
    let none = Seq::<char>::empty();
    law_hosts_are_named_once_in_order(capabilities);
    assert(names.contains(host_name(host)));
    let k = choose|k: int| 0 <= k < names.len() && names[k] == host_name(host);
    if names.len() == 1 {
        assert(host_type(capabilities) =~= none + host_name(host) + "-host"@);
        text::lemma_holds(none, host_name(host), "-host"@);
    } else {
        let all = text::joined(names, "+"@);
        text::lemma_joined_holds(names, "+"@, k);
        text::lemma_holds_within("mixed-host("@, all, ")"@, host_name(host));
    }
}

proof fn lemma_one_host(capabilities: Seq<ModuleCapability>, host: ExecutionHostKind)
    requires
        used(capabilities, host),
        forall|i: int|
            0 <= i < capabilities.len() ==> (#[trigger] capabilities[i]).execution_host == host,
    ensures
        host_type(capabilities) == host_name(host) + "-host"@,
{
    let names = hosts_used(capabilities);
    law_hosts_are_named_once_in_order(capabilities);
    lemma_names(capabilities);
    assert(names.contains(host_name(host)));
    assert forall|i: int| 0 <= i < names.len() implies #[trigger] names[i] == host_name(host) by {
        let other = choose|other: ExecutionHostKind| names[i] == #[trigger] host_name(other);
        assert(names.contains(host_name(other)));
        assert(used(capabilities, other));
    }
    if names.len() > 1 {
        assert(text::before(names[0], names[1]));
        text::lemma_before_is_total(names[0], names[1]);
    }
}

proof fn lemma_mixed(
    capabilities: Seq<ModuleCapability>,
    one: ExecutionHostKind,
    other: ExecutionHostKind,
)
    requires
        used(capabilities, one),
        used(capabilities, other),
        one != other,
    ensures
        host_type(capabilities).take(11) == "mixed-host("@,
        host_type(capabilities).last() == ')',
{
    let names = hosts_used(capabilities);
    law_hosts_are_named_once_in_order(capabilities);
    assert(names.contains(host_name(one)));
    assert(names.contains(host_name(other)));
    assert(host_name(one) != host_name(other)) by {
        lemma_names_in_order();
    }
    reveal_strlit("mixed-host(");
    reveal_strlit(")");
    let all = text::joined(names, "+"@);
    assert(("mixed-host("@ + all + ")"@).take(11) =~= "mixed-host("@);
}

/// Every execution host is called by its own name.
pub proof fn law_every_execution_host_has_its_name(host: ExecutionHostKind, name: &'static str)
    requires
        call_ensures(execution_host_name, (host,), name),
    ensures
        host == ExecutionHostKind::NativeRust ==> name@ == "native-rust"@,
        host == ExecutionHostKind::DotNet ==> name@ == "dotnet"@,
        host == ExecutionHostKind::Java ==> name@ == "java"@,
        host == ExecutionHostKind::Python ==> name@ == "python"@,
        host == ExecutionHostKind::CAbi ==> name@ == "c-abi"@,
        host == ExecutionHostKind::Go ==> name@ == "go"@,
        host == ExecutionHostKind::PowerShell ==> name@ == "powershell"@,
        host == ExecutionHostKind::Bash ==> name@ == "bash"@,
{
}

/// A Module that is registered comes after those that were, and none of them is
/// lost.
pub proof fn law_a_registered_module_comes_last(
    registry: &mut ModuleRegistry,
    manifest: ModuleManifest,
    listed: &[ModuleManifest],
    empty: ModuleRegistry,
)
    requires
        call_ensures(ModuleRegistry::register, (registry, manifest), ()),
        call_ensures(ModuleRegistry::manifests, (final(registry),), listed),
        call_ensures(<ModuleRegistry as Default>::default, (), empty),
    ensures
        listed@.len() == old(registry)@.len() + 1,
        listed@.last() == manifest,
        forall|i: int|
            0 <= i < old(registry)@.len() ==> #[trigger] listed@[i] == old(registry)@[i],
        empty@.len() == 0,
{
}

} // verus!
