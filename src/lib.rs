//! Authentication, role-scoped access policy and record projection for a
//! case-management backend.
//!
//! - `session`: bearer tokens, issued, reused, checked and revoked.
//! - `policy`: the (role, resource, operation) table and its variants.
//! - `beneficiary`, `details`, `category`, `credentials`, `stats`: records,
//!   their projections per role, and the statements that read and write them.
//! - `codec`: the one binary encoding of every payload.
//! - `seal`: sealing of field contents at rest.
use vstd::prelude::*;

pub mod error;
pub mod role;
pub mod policy;
pub mod principal;
pub mod session;
pub mod credentials;
pub mod value;
pub mod sql;
pub mod text;
pub mod codec;
pub mod beneficiary;
pub mod details;
pub mod category;
pub mod stats;
pub mod seal;
pub mod entropy;
pub mod startup;
