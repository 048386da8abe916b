//! The message-variant synthesis and dispatch core of a smart-contract
//! code-generation framework: annotated method signatures become a closed set
//! of message variants per operation kind, the variant sets of attached
//! interfaces merge with a contract's own under an exhaustive name-collision
//! check, and incoming tagged payloads are routed through the merged tables
//! to the single method that owns them.

pub mod text;
pub mod casing;
pub mod diag;
pub mod ops;
pub mod value;
pub mod variant;
pub mod variants;
pub mod dispatch;
pub mod interfaces;
pub mod glue;
pub mod entry_points;
pub mod reply;
pub mod querier;
pub mod api;
pub mod attrs;
pub mod remote;

use vstd::prelude::*;

verus! {

/// The category of a contract entry point.
#[derive(Clone, Copy, Debug, PartialEq, Eq, Structural)]
pub enum OpKind {
    Instantiate,
    Exec,
    Query,
    Migrate,
    Sudo,
    Reply,
}

} // verus!
