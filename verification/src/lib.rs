//! Domain core of a multi-tenant project-delivery back office: billing
//! arithmetic, quotation and change-order baselines, the schedule dependency
//! graph, lifecycle state machines and access rules.
use vstd::prelude::*;

pub mod auth;
pub mod authz;
pub mod billing;
pub mod change_orders;
pub mod config;
pub mod dates;
pub mod decimal;
pub mod design;
pub mod dependency_graph;
pub mod error;
pub mod leads;
pub mod lookup;
pub mod manufacturing;
pub mod notifications;
pub mod org;
pub mod procurement;
pub mod project;
pub mod quotations;
pub mod schedule;
pub mod site_execution;
pub mod tenants;
pub mod text;
pub mod versions;

verus! {

} // verus!
