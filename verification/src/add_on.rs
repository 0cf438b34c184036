//! The shared surface of an add-on: a contract allowed to act through a
//! proxy while staying migratable.
use vstd::prelude::*;

verus! {

/// What a factory hands a fresh add-on.
#[derive(Debug, PartialEq)]
pub struct BaseInstantiateMsg {
    pub memory_address: String,
}

#[derive(Debug)]
pub enum BaseExecuteMsg {
    /// Updates the base config.
    UpdateConfig { memory_address: Option<String> },
}

#[derive(Debug)]
pub enum BaseQueryMsg {
    /// Returns [`AddOnConfigResponse`].
    Config {},
    /// Returns the admin.
    Admin {},
}

#[derive(Debug, PartialEq)]
pub struct AddOnMigrateMsg {}

#[derive(Debug, PartialEq)]
pub struct AddOnConfigResponse {
    pub proxy_address: String,
    pub memory_address: String,
    pub manager_address: String,
}

} // verus!
