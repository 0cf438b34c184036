//! The version-control registry's surface: per-module code identifiers
//! and addresses, and the map from an operating-system id to its core
//! contracts.
use vstd::prelude::*;

verus! {

/// The minimal core addresses of one deployed operating system.
#[derive(Debug, PartialEq)]
pub struct Core {
    pub manager: String,
    pub proxy: String,
}

#[derive(Debug, PartialEq)]
pub struct InstantiateMsg {}

#[derive(Debug, PartialEq)]
pub struct ConfigResponse {
    pub admin: String,
    pub factory: String,
}

#[derive(Debug, PartialEq)]
pub struct MigrateMsg {}

#[derive(Debug, PartialEq)]
pub struct OsCoreResponse {
    pub os_core: Core,
}

} // verus!
