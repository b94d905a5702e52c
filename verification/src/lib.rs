//! Verified core logic of the Mosaic assistant control plane: channel
//! configuration and delivery rules, agent routing, automation replay
//! planning, plugin runtime limits and the command-line helpers around them.
use vstd::prelude::*;

pub mod error;
pub mod text;
pub mod sorting;
pub mod ids;
pub mod weburl;
pub mod paths;
pub mod tally;
pub mod channels;
pub mod agents;
pub mod automation;
pub mod plugins;
pub mod cli;
pub mod desktop;

verus! {
} // verus!
