//! The Xmip Service and the Host Services it supervises: configuration, the
//! execution tree, startup validation, host planning, the capability and
//! Module registries, and the arrival and departure paths of a Message.
//!
//! Everything here decides or computes over plain values and is verified.
//! What reaches outside the process (files, libraries, the C boundary, the
//! capability crates) is the application's, which performs what this library
//! asks for and hands back what it found.

pub mod abi;
pub mod arrival;
pub mod audit;
pub mod boundary;
pub mod capability_registry;
pub mod compatibility;
pub mod configure;
pub mod curve;
pub mod departure;
pub mod execution_tree;
pub mod generation;
pub mod host;
pub mod identity;
pub mod loaded_contract;
pub mod loaded_module;
pub mod message;
pub mod observe;
pub mod operate;
pub mod operator;
pub mod ordered;
pub mod outcome;
pub mod planning;
pub mod publication;
pub mod receive;
pub mod registration;
pub mod rule;
pub mod service;
pub mod start;
pub mod text;
pub mod topology;
pub mod wire;

pub use planning::{
    execution_host_name, host_type_for, HostBitness, HostServicePlan, ModuleRegistry, NodeRole,
    RuntimeNode,
};
