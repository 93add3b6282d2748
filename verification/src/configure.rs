//! A node's configuration document: what an operator wrote, as values.

use vstd::prelude::*;

use crate::abi::{ExtensionManifest, ModuleManifest};

verus! {

#[derive(Clone, Debug, PartialEq, Eq)]
pub struct ServiceConfiguration {
    pub name: String,
    pub cluster_name: String,
    pub node_name: String,
}

/// A Module the node knows, and whether it starts with the node.
#[derive(Clone, Debug, PartialEq, Eq)]
pub struct ModuleConfiguration {
    pub name: String,
    pub start: bool,
    pub manifest: ModuleManifest,
}

#[derive(Clone, Debug, PartialEq, Eq)]
pub struct XmipSubprocessConfiguration {
    pub name: String,
    pub required_modules: Vec<String>,
    pub extensions: Vec<ExtensionManifest>,
}

#[derive(Clone, Debug, PartialEq, Eq)]
pub struct XmipProcessConfiguration {
    pub name: String,
    pub start: bool,
    pub required_modules: Vec<String>,
    pub xmip_subprocesses: Vec<XmipSubprocessConfiguration>,
    pub extensions: Vec<ExtensionManifest>,
}

/// Where a Stream arrives or a Message departs.
#[derive(Clone, Debug, PartialEq, Eq)]
pub struct ConfiguredLocation {
    pub name: String,
    pub start: bool,
    pub transport: String,
    pub address: String,
}

#[derive(Clone, Debug, PartialEq, Eq)]
pub struct XmipConfigurationDocument {
    pub service: ServiceConfiguration,
    pub modules: Vec<ModuleConfiguration>,
    pub xmip_processes: Vec<XmipProcessConfiguration>,
    pub receive_locations: Vec<ConfiguredLocation>,
    pub send_locations: Vec<ConfiguredLocation>,
}

} // verus!
