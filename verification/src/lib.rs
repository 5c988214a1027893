//! Install-state reconciliation engine for a game add-on manager.
//!
//! The library keeps a persisted manifest of installed add-ons consistent
//! with a mods directory and with remote catalog version identifiers.  It
//! holds the pure core: the settings/manifest store and its text codec, the
//! install-status resolver, filename-based name inference, the
//! install/update/remove orchestrator over an explicit directory model, and
//! the per-item in-flight tracker.  All network and disk access lives in the
//! surrounding application, which feeds plain values in and out.

pub mod assoc;
pub mod codec;
pub mod curse_forge;
pub mod local_mods;
pub mod mod_store;
pub mod mod_tale;
pub mod orchestrator;
pub mod scan;
pub mod settings;
pub mod text;
pub mod ui_mod;

use vstd::prelude::*;

verus! {

} // verus!
