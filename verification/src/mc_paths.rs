//! Default game directory conventions per platform.
//!
//! The application probes the environment for the user's home (or, on
//! Windows, application-data) directory and hands it in; the conventions
//! themselves are decided here.

use vstd::prelude::*;

use crate::text::concat2;

verus! {

/// The platforms whose launcher directory conventions are known.
#[derive(Debug, Clone, Copy, PartialEq, Eq, Structural)]
pub enum Platform {
    MacOs,
    Windows,
    Linux,
}

/// The default game directory of a platform, under `base`: the user's home
/// directory, or on Windows the application-data directory.
pub open spec fn spec_default_minecraft_dir(platform: Platform, base: Seq<char>) -> Seq<char> {
    match platform {
        Platform::MacOs => base + "/Library/Application Support/minecraft"@,
        Platform::Windows => base + "\\.minecraft"@,
        Platform::Linux => base + "/.minecraft"@,
    }
}

/// The default game directory for a platform.
pub fn get_default_minecraft_dir(platform: &Platform, base: &str) -> (r: String)
    ensures
        r@ == spec_default_minecraft_dir(*platform, base@),
{
    match platform {
        Platform::MacOs => concat2(base, "/Library/Application Support/minecraft"),
        Platform::Windows => concat2(base, "\\.minecraft"),
        Platform::Linux => concat2(base, "/.minecraft"),
    }
}

/// The default resource-pack directory: `resourcepacks` under the default
/// game directory.
pub fn get_default_resourcepacks_dir(platform: &Platform, base: &str) -> (r: String)
    ensures
        r@ == spec_default_minecraft_dir(*platform, base@) + (match *platform {
            Platform::Windows => "\\resourcepacks"@,
            _ => "/resourcepacks"@,
        }),
{
    let dir = get_default_minecraft_dir(platform, base);
    match platform {
        Platform::Windows => concat2(dir.as_str(), "\\resourcepacks"),
        _ => concat2(dir.as_str(), "/resourcepacks"),
    }
}

/// Whether a probed path is usable as a pack directory: it exists and is a
/// directory.
pub fn is_valid_packs_dir(exists: bool, is_dir: bool) -> (r: bool)
    ensures
        r == (exists && is_dir),
{
    exists && is_dir
}

} // verus!
