//! A request-authorization library: signed session tokens, a role/permission
//! store, and the per-request gate that authenticates and authorizes.

pub mod account;
pub mod gate;
pub mod item;
pub mod rbac;
pub mod text;
pub mod token;
