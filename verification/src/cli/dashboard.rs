//! The dashboard's summary: where the gateway is reached, and the warnings
//! for what could not be read.
use vstd::prelude::*;
use crate::text::{cat3, owned};

verus! {

/// Where state lives: the user's XDG directories or the project.
#[derive(Debug, Clone, Copy, PartialEq, Eq, Structural)]
pub enum StateMode {
    Xdg,
    Project,
}

/// The name of a state mode.
pub fn state_mode_name(mode: StateMode) -> (s: &'static str)
    ensures
        s@ == match mode {
            StateMode::Xdg => "xdg"@,
            StateMode::Project => "project"@,
        },
{
    match mode {
        StateMode::Xdg => "xdg",
        StateMode::Project => "project",
    }
}

/// A host and a port the gateway listens on.
#[derive(Debug, Clone)]
pub struct GatewayAddress {
    pub host: String,
    pub port: u16,
}

/// The gateway's address: from its state file, else from its service file,
/// else `127.0.0.1:8787`.
pub fn gateway_target(state: Option<&GatewayAddress>, service: Option<&GatewayAddress>) -> (out:
    GatewayAddress)
    ensures
        match (state, service) {
            (Some(s), _) => out.host@ == s.host@ && out.port == s.port,
            (None, Some(v)) => out.host@ == v.host@ && out.port == v.port,
            (None, None) => out.host@ == "127.0.0.1"@ && out.port == 8787,
        },
{
    match (state, service) {
        (Some(s), _) => GatewayAddress { host: s.host.clone(), port: s.port },
        (None, Some(v)) => GatewayAddress { host: v.host.clone(), port: v.port },
        (None, None) => GatewayAddress { host: owned("127.0.0.1"), port: 8787 },
    }
}

/// Keeps a value that was read, or records why it could not be: the warning
/// is `<label>: <error>`.
pub fn collect_optional<T>(label: &str, warnings: &mut Vec<String>, result: Result<T, String>) -> (out:
    Option<T>)
    ensures
        match result {
            Ok(v) => out == Some(v) && final(warnings)@ == old(warnings)@,
            Err(e) => out is None && final(warnings)@.len() == old(warnings)@.len() + 1
                && final(warnings)@.drop_last() == old(warnings)@ && final(warnings)@.last()@
                == label@ + ": "@ + e@,
        },
{
    match result {
        Ok(v) => Some(v),
        Err(e) => {
            warnings.push(cat3(label, ": ", e.as_str()));
            None
        },
    }
}

} // verus!
