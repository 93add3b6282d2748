//! What a Module says about itself: the manifest an operator writes, the
//! descriptor its library carries, and the statuses the C boundary answers
//! with.

use vstd::prelude::*;

verus! {

/// The symbol every conforming module exports.
pub const XMIP_ENTRYPOINT: &'static str = "xmip_create_module_v1";

/// What a call across the C boundary answers.
///
/// The integer each one crosses as is the header's.
#[derive(Clone, Copy, Debug, PartialEq, Eq, Structural)]
pub enum Status {
    Okay,
    Invalid,
    Malformed,
    NotFound,
    Unsupported,
    Io,
}

/// What a Module is written in, which decides the process it runs in.
#[derive(Clone, Copy, Debug, PartialEq, Eq, Structural)]
pub enum ExecutionHostKind {
    NativeRust,
    DotNet,
    Java,
    Python,
    CAbi,
    Go,
    PowerShell,
    Bash,
}

#[derive(Debug, PartialEq, Eq)]
pub struct ModuleIdentity {
    pub name: String,
    pub version: String,
}

impl Clone for ModuleIdentity {
    fn clone(&self) -> (r: Self)
        ensures
            r == *self,
    {
        ModuleIdentity { name: self.name.clone(), version: self.version.clone() }
    }
}

/// One thing a Module can do.
#[derive(Debug, PartialEq, Eq)]
pub struct ModuleCapability {
    pub capability: String,
    pub execution_host: ExecutionHostKind,
    pub trusted_required: bool,
}

impl Clone for ModuleCapability {
    fn clone(&self) -> (r: Self)
        ensures
            r == *self,
    {
        ModuleCapability {
            capability: self.capability.clone(),
            execution_host: self.execution_host,
            trusted_required: self.trusted_required,
        }
    }
}

#[derive(Debug, PartialEq, Eq)]
pub struct ModuleEntrypoint {
    pub library_path: Option<String>,
    pub executable_path: Option<String>,
    pub symbol: Option<String>,
}

impl Clone for ModuleEntrypoint {
    fn clone(&self) -> (r: Self)
        ensures
            r == *self,
    {
        ModuleEntrypoint {
            library_path: self.library_path.clone(),
            executable_path: self.executable_path.clone(),
            symbol: self.symbol.clone(),
        }
    }
}

/// What an operator is told about a Module before it is loaded.
#[derive(Debug, PartialEq, Eq)]
pub struct ModuleManifest {
    pub identity: ModuleIdentity,
    pub capabilities: Vec<ModuleCapability>,
    pub entrypoint: ModuleEntrypoint,
}

/// A manifest, with its capabilities as a sequence.
pub struct ModuleManifestView {
    pub identity: ModuleIdentity,
    pub capabilities: Seq<ModuleCapability>,
    pub entrypoint: ModuleEntrypoint,
}

impl View for ModuleManifest {
    type V = ModuleManifestView;

    open spec fn view(&self) -> ModuleManifestView {
        ModuleManifestView {
            identity: self.identity,
            capabilities: self.capabilities@,
            entrypoint: self.entrypoint,
        }
    }
}

impl Clone for ModuleManifest {
    fn clone(&self) -> (r: Self)
        ensures
            r@ == self@,
    {
        let capabilities = self.capabilities.clone();
        assert(capabilities@ =~= self.capabilities@);
        ModuleManifest {
            identity: self.identity.clone(),
            capabilities,
            entrypoint: self.entrypoint.clone(),
        }
    }
}

/// What a loaded library says it is, copied out of it.
#[derive(Clone, Debug, PartialEq, Eq)]
pub struct ModuleDescriptor {
    pub abi_version: u32,
    pub provider: String,
    pub module: String,
    pub standard: String,
    pub trait_major: u32,
    pub trait_minor: u32,
    pub module_major: u32,
    pub module_minor: u32,
    pub module_patch: u32,
}

#[derive(Clone, Debug, PartialEq, Eq)]
pub struct ExtensionEntrypoint {
    pub path: String,
    pub symbol_or_command: String,
}

/// Code an Xmip Process brings with it.
#[derive(Clone, Debug, PartialEq, Eq)]
pub struct ExtensionManifest {
    pub name: String,
    pub version: String,
    pub execution_host: ExecutionHostKind,
    pub required_capabilities: Vec<String>,
    pub entrypoint: ExtensionEntrypoint,
}

} // verus!
