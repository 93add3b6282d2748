//! Which Module answers for which capability.

use vstd::prelude::*;
use vstd::string::*;

use crate::abi::{ModuleCapability, ModuleIdentity, ModuleManifest};
use crate::ordered::Ordered;

verus! {

#[derive(Clone, Debug, PartialEq, Eq)]
pub struct RegisteredCapability {
    pub capability: ModuleCapability,
    pub module_identity: ModuleIdentity,
}

/// One Module for each capability.
#[derive(Clone, Debug)]
pub struct CapabilityRegistry {
    capabilities: Ordered<RegisteredCapability>,
}

impl View for CapabilityRegistry {
    type V = Map<Seq<char>, RegisteredCapability>;

    closed spec fn view(&self) -> Map<Seq<char>, RegisteredCapability> {
        self.capabilities@
    }
}

/// What is registered once a Module's capabilities were taken up one after the
/// other, as far as the first that is taken already.
pub open spec fn taken_up(
    registered: Map<Seq<char>, RegisteredCapability>,
    capabilities: Seq<ModuleCapability>,
    identity: ModuleIdentity,
) -> Map<Seq<char>, RegisteredCapability>
    decreases capabilities.len(),
{
    if capabilities.len() == 0 || registered.contains_key(capabilities[0].capability@) {
        registered
    } else {
        taken_up(
            registered.insert(
                capabilities[0].capability@,
                RegisteredCapability { capability: capabilities[0], module_identity: identity },
            ),
            capabilities.drop_first(),
            identity,
        )
    }
}

/// The first capability that is taken already: by a Module registered before,
/// or further up in the same list.
pub open spec fn clash(
    registered: Map<Seq<char>, RegisteredCapability>,
    capabilities: Seq<ModuleCapability>,
    identity: ModuleIdentity,
) -> Option<Seq<char>>
    decreases capabilities.len(),
{
    if capabilities.len() == 0 {
        None
    } else if registered.contains_key(capabilities[0].capability@) {
        Some(capabilities[0].capability@)
    } else {
        clash(
            registered.insert(
                capabilities[0].capability@,
                RegisteredCapability { capability: capabilities[0], module_identity: identity },
            ),
            capabilities.drop_first(),
            identity,
        )
    }
}

impl Default for CapabilityRegistry {
    fn default() -> (r: Self)
        ensures
            r.well_formed(),
            r@ == Map::<Seq<char>, RegisteredCapability>::empty(),
    {
        CapabilityRegistry { capabilities: Ordered::new() }
    }
}

impl CapabilityRegistry {
    /// Every capability stands under its own name.
    pub closed spec fn well_formed(self) -> bool {
        &&& self.capabilities.well_formed()
        &&& forall|name: Seq<char>| #[trigger]
            self@.contains_key(name) ==> self@[name].capability.capability@ == name
    }

    /// Take up what a Module offers, in its order. The first capability that is
    /// taken already ends it; what came before stays.
    pub fn register_module(&mut self, manifest: &ModuleManifest) -> (r: Result<(), String>)
        requires
            old(self).well_formed(),
        ensures
            final(self).well_formed(),
            final(self)@ == taken_up(old(self)@, manifest.capabilities@, manifest.identity),
            r is Ok == clash(old(self)@, manifest.capabilities@, manifest.identity) is None,
            r matches Err(said) ==> said@ == "capability '"@ + clash(
                old(self)@,
                manifest.capabilities@,
                manifest.identity,
            )->0 + "' is already registered"@,
    {
        let ghost before = self@;
        let ghost all = manifest.capabilities@;
        let mut at: usize = 0;
        assert(all.skip(0) =~= all);
        while at < manifest.capabilities.len()
            invariant
                self.well_formed(),
                at <= all.len(),
                all == manifest.capabilities@,
                taken_up(before, all, manifest.identity) == taken_up(
                    self@,
                    all.skip(at as int),
                    manifest.identity,
                ),
                clash(before, all, manifest.identity) == clash(
                    self@,
                    all.skip(at as int),
                    manifest.identity,
                ),
                before == old(self)@,
            decreases all.len() - at,
        {
            let capability = &manifest.capabilities[at];
            assert(all.skip(at as int)[0] == all[at as int]);
            assert(all.skip(at as int).drop_first() =~= all.skip(at + 1));
            if self.capabilities.get(capability.capability.as_str()).is_some() {
                return Err(
                    "capability '".to_string().concat(capability.capability.as_str()).concat(
                        "' is already registered",
                    ),
                );
            }
            self.capabilities.insert(
                capability.capability.clone(),
                RegisteredCapability {
                    capability: capability.clone(),
                    module_identity: manifest.identity.clone(),
                },
            );
            at += 1;
        }
        Ok(())
    }

    pub fn get(&self, capability: &str) -> (r: Option<&RegisteredCapability>)
        requires
            self.well_formed(),
        ensures
            r == (if self@.contains_key(capability@) {
                Some(&self@[capability@])
            } else {
                None
            }),
    {
        self.capabilities.get(capability)
    }

    /// Everything registered, in the order of the capabilities' names.
    pub fn capabilities(&self) -> (r: Vec<&RegisteredCapability>)
        requires
            self.well_formed(),
        ensures
            forall|i: int, j: int|
                0 <= i < j < r@.len() ==> crate::text::before(
                    (#[trigger] r@[i]).capability.capability@,
                    (#[trigger] r@[j]).capability.capability@,
                ),
            forall|i: int|
                0 <= i < r@.len() ==> self@.contains_key((#[trigger] r@[i]).capability.capability@)
                    && self@[r@[i].capability.capability@] == *r@[i],
            forall|name: Seq<char>| #[trigger]
                self@.contains_key(name) ==> exists|i: int|
                    0 <= i < r@.len() && (#[trigger] r@[i]).capability.capability@ == name,
    {
        let entries = self.capabilities.entries();
        let mut found: Vec<&RegisteredCapability> = Vec::new();
        let mut at: usize = 0;
        while at < entries.len()
            invariant
                at <= entries@.len(),
                crate::ordered::in_order(entries@),
                crate::ordered::held(entries@) == self@,
                self.well_formed(),
                found@.len() == at,
                forall|i: int|
                    0 <= i < at ==> *(#[trigger] found@[i]) == entries@[i].value
                        && found@[i].capability.capability@ == entries@[i].name@
                        && self@.contains_key(entries@[i].name@) && self@[entries@[i].name@]
                        == *found@[i],
            decreases entries@.len() - at,
        {
            proof {
                crate::ordered::lemma_held(entries@, at as int);
            }
            found.push(&entries[at].value);
            at += 1;
        }
        assert forall|name: Seq<char>| #[trigger] self@.contains_key(name) implies exists|i: int|
            0 <= i < found@.len() && (#[trigger] found@[i]).capability.capability@ == name by {
            assert(crate::ordered::names(entries@, name));
            let i = choose|i: int|
                0 <= i < entries@.len() && (#[trigger] entries@[i]).name@ == name;
            assert(found@[i].capability.capability@ == name);
        }
        found
    }
}

/// A capability keeps the Module that took it first, whatever is registered
/// after it.
pub proof fn law_a_capability_keeps_its_module(
    registered: Map<Seq<char>, RegisteredCapability>,
    capabilities: Seq<ModuleCapability>,
    identity: ModuleIdentity,
    name: Seq<char>,
)
    requires
        registered.contains_key(name),
    ensures
        taken_up(registered, capabilities, identity).contains_key(name),
        taken_up(registered, capabilities, identity)[name] == registered[name],
    decreases capabilities.len(),
{
    if capabilities.len() > 0 && !registered.contains_key(capabilities[0].capability@) {
        law_a_capability_keeps_its_module(
            registered.insert(
                capabilities[0].capability@,
                RegisteredCapability { capability: capabilities[0], module_identity: identity },
            ),
            capabilities.drop_first(),
            identity,
            name,
        );
    }
}

/// Every capability of a Module that registered without a clash is found under
/// its name, with that Module.
pub proof fn law_what_registered_is_found(
    registered: Map<Seq<char>, RegisteredCapability>,
    capabilities: Seq<ModuleCapability>,
    identity: ModuleIdentity,
    at: int,
)
    requires
        clash(registered, capabilities, identity) is None,
        0 <= at < capabilities.len(),
    ensures
        taken_up(registered, capabilities, identity).contains_key(capabilities[at].capability@),
        taken_up(registered, capabilities, identity)[capabilities[at].capability@] == (
        RegisteredCapability { capability: capabilities[at], module_identity: identity }),
    decreases capabilities.len(),
{
    let next = registered.insert(
        capabilities[0].capability@,
        RegisteredCapability { capability: capabilities[0], module_identity: identity },
    );
    if at == 0 {
        law_a_capability_keeps_its_module(
            next,
            capabilities.drop_first(),
            identity,
            capabilities[0].capability@,
        );
    } else {
        assert(capabilities.drop_first()[at - 1] == capabilities[at]);
        law_what_registered_is_found(next, capabilities.drop_first(), identity, at - 1);
    }
}

/// The capability at `at` is the first that cannot be taken up: a Module has it
/// already, or it stands further up in the same list. Where there is none, `at`
/// is the end of the list.
pub open spec fn first_taken(
    registered: Map<Seq<char>, RegisteredCapability>,
    capabilities: Seq<ModuleCapability>,
    at: int,
) -> bool {
    &&& 0 <= at <= capabilities.len()
    &&& forall|i: int|
        0 <= i < at ==> !registered.contains_key((#[trigger] capabilities[i]).capability@)
    &&& forall|i: int, j: int|
        0 <= i < j < at ==> (#[trigger] capabilities[i]).capability@ != (
        #[trigger] capabilities[j]).capability@
    &&& at < capabilities.len() ==> registered.contains_key(capabilities[at].capability@)
        || exists|i: int|
        0 <= i < at && (#[trigger] capabilities[i]).capability@ == capabilities[at].capability@
}

/// Everything before the first capability that is taken already is registered
/// for the Module, nothing from there on is, and what others have registered
/// stays; the refusal names that capability, and there is one exactly where
/// there is such a capability.
pub proof fn law_registering_stops_at_the_first_that_is_taken(
    registered: Map<Seq<char>, RegisteredCapability>,
    capabilities: Seq<ModuleCapability>,
    identity: ModuleIdentity,
    at: int,
)
    requires
        first_taken(registered, capabilities, at),
    ensures
        at < capabilities.len() ==> clash(registered, capabilities, identity) == Some(
            capabilities[at].capability@,
        ),
        at == capabilities.len() ==> clash(registered, capabilities, identity) is None,
        forall|name: Seq<char>| #[trigger]
            taken_up(registered, capabilities, identity).contains_key(name) <==> (
            registered.contains_key(name) || exists|i: int|
                0 <= i < at && (#[trigger] capabilities[i]).capability@ == name),
        forall|i: int|
            0 <= i < at ==> taken_up(registered, capabilities, identity)[(
            #[trigger] capabilities[i]).capability@] == (RegisteredCapability {
                capability: capabilities[i],
                module_identity: identity,
            }),
        forall|name: Seq<char>| #[trigger]
            registered.contains_key(name) ==> taken_up(registered, capabilities, identity)[name]
                == registered[name],
    decreases capabilities.len(),
{
    let after = taken_up(registered, capabilities, identity);
    if at > 0 {
        let first = RegisteredCapability {
            capability: capabilities[0],
            module_identity: identity,
        };
        let next = registered.insert(capabilities[0].capability@, first);
        let rest = capabilities.drop_first();
        assert forall|i: int| 0 <= i < at - 1 implies !next.contains_key(
            (#[trigger] rest[i]).capability@,
        ) by {
            assert(rest[i] == capabilities[i + 1]);
        }
        assert forall|i: int, j: int| 0 <= i < j < at - 1 implies (#[trigger] rest[i]).capability@
            != (#[trigger] rest[j]).capability@ by {
            assert(rest[i] == capabilities[i + 1] && rest[j] == capabilities[j + 1]);
        }
        if at < capabilities.len() {
            assert(rest[at - 1] == capabilities[at]);
            if !registered.contains_key(capabilities[at].capability@) {
                let i = choose|i: int|
                    0 <= i < at && (#[trigger] capabilities[i]).capability@
                        == capabilities[at].capability@;
                if i > 0 {
                    assert(rest[i - 1] == capabilities[i]);
                }
            }
        }
        assert(first_taken(next, rest, at - 1));
        law_registering_stops_at_the_first_that_is_taken(next, rest, identity, at - 1);
        assert(after == taken_up(next, rest, identity));
        assert forall|name: Seq<char>| #[trigger] after.contains_key(name) <==> (
        registered.contains_key(name) || exists|i: int|
            0 <= i < at && (#[trigger] capabilities[i]).capability@ == name) by {
            if exists|i: int| 0 <= i < at - 1 && (#[trigger] rest[i]).capability@ == name {
                let i = choose|i: int|
                    0 <= i < at - 1 && (#[trigger] rest[i]).capability@ == name;
                assert(capabilities[i + 1].capability@ == name);
            }
            if exists|i: int| 0 <= i < at && (#[trigger] capabilities[i]).capability@ == name {
                let i = choose|i: int|
                    0 <= i < at && (#[trigger] capabilities[i]).capability@ == name;
                if i > 0 {
                    assert(rest[i - 1].capability@ == name);
                }
            }
        }
        assert forall|i: int| 0 <= i < at implies after[(
        #[trigger] capabilities[i]).capability@] == (RegisteredCapability {
            capability: capabilities[i],
            module_identity: identity,
        }) by {
            if i > 0 {
                assert(rest[i - 1] == capabilities[i]);
            } else {
                assert(next.contains_key(capabilities[0].capability@));
            }
        }
        assert forall|name: Seq<char>| #[trigger] registered.contains_key(name) implies after[name]
            == registered[name] by {
            assert(next.contains_key(name));
            assert(name != capabilities[0].capability@);
        }
    }
}

/// What a registry is asked for it gives where it has it, and nothing else; and
/// what it lists it has, each under its own name and none of them twice.
pub proof fn law_a_registry_gives_what_it_has(
    registry: CapabilityRegistry,
    name: &str,
    found: Option<&RegisteredCapability>,
    all: Vec<&RegisteredCapability>,
)
    requires
        registry.well_formed(),
        call_ensures(CapabilityRegistry::get, (&registry, name), found),
        call_ensures(CapabilityRegistry::capabilities, (&registry,), all),
    ensures
        found is Some <==> registry@.contains_key(name@),
        found matches Some(own) ==> *own == registry@[name@],
        forall|i: int|
            0 <= i < all@.len() ==> registry@.contains_key(
                (#[trigger] all@[i]).capability.capability@,
            ) && registry@[all@[i].capability.capability@] == *all@[i],
        forall|i: int, j: int|
            0 <= i < j < all@.len() ==> (#[trigger] all@[i]).capability.capability@ != (
            #[trigger] all@[j]).capability.capability@,
{
    assert forall|i: int, j: int| 0 <= i < j < all@.len() implies (
    #[trigger] all@[i]).capability.capability@ != (#[trigger] all@[j]).capability.capability@ by {
        crate::text::lemma_before_is_total(
            all@[i].capability.capability@,
            all@[j].capability.capability@,
        );
    }
}

/// A Module whose capabilities are all free registers, and each of them is then
/// found with that Module; one that brings a capability another Module has is
/// refused by that capability's name, which stays with the other.
pub proof fn law_a_module_registers_where_everything_is_free(
    registry: &mut CapabilityRegistry,
    manifest: ModuleManifest,
    r: Result<(), String>,
    at: int,
    name: &str,
    found: Option<&RegisteredCapability>,
)
    requires
        old(registry).well_formed(),
        call_ensures(CapabilityRegistry::register_module, (registry, &manifest), r),
        call_ensures(CapabilityRegistry::get, (final(registry), name), found),
        first_taken(old(registry)@, manifest.capabilities@, at),
    ensures
        r is Ok <==> at == manifest.capabilities@.len(),
        r matches Err(said) ==> said@ == "capability '"@ + manifest.capabilities@[at].capability@
            + "' is already registered"@,
        old(registry)@.contains_key(name@) ==> found is Some && *found->0 == old(registry)@[name@],
        forall|i: int|
            0 <= i < at && (#[trigger] manifest.capabilities@[i]).capability@ == name@ ==> found
                is Some && found->0.capability == manifest.capabilities@[i]
                && found->0.module_identity == manifest.identity,
        found is Some ==> old(registry)@.contains_key(name@) || exists|i: int|
            0 <= i < at && (#[trigger] manifest.capabilities@[i]).capability@ == name@,
{
    law_registering_stops_at_the_first_that_is_taken(
        old(registry)@,
        manifest.capabilities@,
        manifest.identity,
        at,
    );
}

} // verus!
