//! Install/uninstall orchestration for a vendored NAS download service.
//!
//! The library computes, as plain data, everything the installer decides:
//! validated configuration, the exact sequence of filesystem and
//! service-control actions an install or uninstall performs, and the exact
//! text of the generated identity and service-unit files.  A thin runner
//! outside the library executes those actions against the real system.

use vstd::prelude::*;

pub mod actions;
pub mod assets;
pub mod errors;
pub mod install;
pub mod ip;
pub mod ipparse;
pub mod laws;
pub mod paths;
pub mod sim;
pub mod text;
pub mod validate;

verus! {

/// A command that can be turned into a plan of concrete actions.
pub trait Running {
    /// Computes the sequence of actions this command performs, given the
    /// asset store and what was probed from the system (service-control
    /// availability, the path of the running executable).
    fn run(
        &self,
        assets: &crate::assets::AssetStore,
        probe: &crate::install::SystemProbe,
    ) -> Result<Vec<crate::actions::Action>, crate::errors::XunleiError>;
}

} // verus!
