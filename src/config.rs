//! Defaults of the server's settings, read from the environment.
use vstd::prelude::*;
use vstd::string::*;

verus! {

/// Whether the server runs sandboxed when the setting is absent: it does not.
pub fn sandbox_default() -> (r: bool)
    ensures
        !r,
{
    false
}

/// The log filter used when none is given.
pub fn default_rust_log() -> (r: String)
    ensures
        r@ == "debug"@,
{
    String::from_str("debug")
}

/// File name of the configuration file, relative to the configuration directory.
pub fn config_path() -> (r: String)
    ensures
        r@ == "ungrammar_lsp.toml"@,
{
    String::from_str("ungrammar_lsp.toml")
}

} // verus!
