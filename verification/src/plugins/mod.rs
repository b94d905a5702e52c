//! Plugins: their runtime settings and resource limits, the enabled state,
//! how their hooks are found, run and judged.
pub mod entry;
pub mod limits;
pub mod state;
pub mod run;
pub mod policy;
