//! Launcher identification and per-launcher directory rules.
//!
//! Which launchers exist on a machine is a matter of probing the filesystem;
//! the application does that and hands the findings in. What is decided here:
//! each launcher's display name and icon identifier, how a path is classified
//! as belonging to a launcher, whether a directory looks like a game
//! installation, and where a launcher keeps its resource packs.

use vstd::prelude::*;
use vstd::string::StrSliceExecFns;

use crate::text::{concat2, contains_seq, matches_at, str_eq};

verus! {

/// Supported launcher types.
#[derive(Debug, Clone, Copy, PartialEq, Eq, Structural)]
pub enum LauncherType {
    Official,
    Modrinth,
    CurseForge,
    PrismLauncher,
    MultiMC,
    ATLauncher,
    GDLauncher,
    Technic,
    Custom,
}

/// The display name of a launcher.
pub open spec fn spec_display_name(t: LauncherType) -> Seq<char> {
    match t {
        LauncherType::Official => "Minecraft (Official Launcher)"@,
        LauncherType::Modrinth => "Modrinth App"@,
        LauncherType::CurseForge => "CurseForge"@,
        LauncherType::PrismLauncher => "Prism Launcher"@,
        LauncherType::MultiMC => "MultiMC"@,
        LauncherType::ATLauncher => "ATLauncher"@,
        LauncherType::GDLauncher => "GDLauncher"@,
        LauncherType::Technic => "Technic Launcher"@,
        LauncherType::Custom => "Custom Location"@,
    }
}

/// The icon identifier of a launcher, for the frontend.
pub open spec fn spec_icon(t: LauncherType) -> Seq<char> {
    match t {
        LauncherType::Official => "minecraft"@,
        LauncherType::Modrinth => "modrinth"@,
        LauncherType::CurseForge => "curseforge"@,
        LauncherType::PrismLauncher => "prism"@,
        LauncherType::MultiMC => "multimc"@,
        LauncherType::ATLauncher => "atlauncher"@,
        LauncherType::GDLauncher => "gdlauncher"@,
        LauncherType::Technic => "technic"@,
        LauncherType::Custom => "folder"@,
    }
}

impl LauncherType {
    /// Get the display name for this launcher.
    pub fn display_name(&self) -> (r: &str)
        ensures
            r@ == spec_display_name(*self),
    {
        match self {
            LauncherType::Official => "Minecraft (Official Launcher)",
            LauncherType::Modrinth => "Modrinth App",
            LauncherType::CurseForge => "CurseForge",
            LauncherType::PrismLauncher => "Prism Launcher",
            LauncherType::MultiMC => "MultiMC",
            LauncherType::ATLauncher => "ATLauncher",
            LauncherType::GDLauncher => "GDLauncher",
            LauncherType::Technic => "Technic Launcher",
            LauncherType::Custom => "Custom Location",
        }
    }

    /// Get the icon identifier for this launcher (for the frontend).
    pub fn icon(&self) -> (r: &str)
        ensures
            r@ == spec_icon(*self),
    {
        match self {
            LauncherType::Official => "minecraft",
            LauncherType::Modrinth => "modrinth",
            LauncherType::CurseForge => "curseforge",
            LauncherType::PrismLauncher => "prism",
            LauncherType::MultiMC => "multimc",
            LauncherType::ATLauncher => "atlauncher",
            LauncherType::GDLauncher => "gdlauncher",
            LauncherType::Technic => "technic",
            LauncherType::Custom => "folder",
        }
    }
}

/// Information about one detected launcher installation.
#[derive(Debug)]
pub struct LauncherInfo {
    /// Type of launcher.
    pub launcher_type: LauncherType,
    /// Display name.
    pub name: String,
    /// Path to the game directory (or equivalent).
    pub minecraft_dir: String,
    /// Whether this installation was actually found on the system.
    pub found: bool,
    /// Icon identifier for the frontend.
    pub icon: String,
    /// Optional path to a platform-provided icon asset.
    pub icon_path: Option<String>,
}

/// A character with an upper-case letter lowered.
pub open spec fn lower_char(c: char) -> char {
    if 65 <= c as u32 <= 90 {
        ((c as u8) + 32) as char
    } else {
        c
    }
}

/// The characters of `s`, upper-case letters lowered.
pub open spec fn lower_seq(s: Seq<char>) -> Seq<char> {
    s.map_values(|c: char| lower_char(c))
}

/// Whether `p` occurs in `s` when letter case is ignored (`p` itself in lower
/// case).
pub open spec fn contains_ci(s: Seq<char>, p: Seq<char>) -> bool {
    contains_seq(lower_seq(s), p)
}

/// A character with an upper-case letter lowered.
fn lower_char_exec(c: char) -> (r: char)
    ensures
        r == lower_char(c),
{
    let cv: u32 = c as u32;
    if 65 <= cv && cv <= 90 {
        ((c as u8) + 32) as char
    } else {
        c
    }
}

/// Whether `p` occurs in `s` when letter case is ignored.
fn str_contains_ci(s: &str, p: &str) -> (r: bool)
    ensures
        r == contains_ci(s@, p@),
{
    let ghost ls = lower_seq(s@);
    let sn: usize = s.unicode_len();
    let pn: usize = p.unicode_len();
    if pn > sn {
        return false;
    }
    if pn == 0 {
        assert(matches_at(ls, 0, p@)) by {
            assert(ls.subrange(0, 0) =~= p@);
        }
        return true;
    }
    let mut i: usize = 0;
    while i <= sn - pn
        invariant
            0 < pn <= sn,
            sn == s@.len(),
            pn == p@.len(),
            ls == lower_seq(s@),
            i <= sn - pn + 1,
            forall|k: int| 0 <= k < i ==> !matches_at(ls, k, p@),
        decreases sn - pn + 1 - i,
    {
        let mut j: usize = 0;
        let mut all_match = true;
        while j < pn && all_match
            invariant
                j <= pn,
                0 < pn <= sn,
                i <= sn - pn,
                sn == s@.len(),
                pn == p@.len(),
                ls == lower_seq(s@),
                all_match ==> forall|k: int| 0 <= k < j ==> ls[i + k] == p@[k],
                !all_match ==> j < pn && ls[i + j as int] != p@[j as int],
            decreases pn - j + (if all_match {
                1int
            } else {
                0int
            }),
        {
            if lower_char_exec(s.get_char(i + j)) != p.get_char(j) {
                all_match = false;
            } else {
                j += 1;
            }
        }
        if all_match {
            proof {
                assert(ls.subrange(i as int, i + pn) =~= p@);
                assert(matches_at(ls, i as int, p@));
            }
            return true;
        }
        proof {
            assert(!matches_at(ls, i as int, p@)) by {
                assert(ls.subrange(i as int, i + pn)[j as int] == ls[i + j as int]);
            }
        }
        i += 1;
    }
    proof {
        assert forall|k: int| !matches_at(ls, k, p@) by {
            if 0 <= k && k + p@.len() <= ls.len() {
                assert(k < i);
            }
        }
    }
    false
}

/// The launcher a directory path belongs to: by the names the launchers use
/// in their paths, case ignored; a path with a `versions` directory but no
/// known name is the official launcher's; anything else is a custom location.
pub open spec fn spec_identify_launcher(path: Seq<char>, has_versions_dir: bool) -> LauncherType {
    if contains_ci(path, "modrinth"@) || contains_ci(path, "theseus"@) {
        LauncherType::Modrinth
    } else if contains_ci(path, "curseforge"@) {
        LauncherType::CurseForge
    } else if contains_ci(path, "prism"@) {
        LauncherType::PrismLauncher
    } else if contains_ci(path, "multimc"@) {
        LauncherType::MultiMC
    } else if contains_ci(path, "atlauncher"@) {
        LauncherType::ATLauncher
    } else if contains_ci(path, "gdlauncher"@) {
        LauncherType::GDLauncher
    } else if contains_ci(path, ".minecraft"@) || has_versions_dir {
        LauncherType::Official
    } else {
        LauncherType::Custom
    }
}

/// Identify the launcher type from a directory path; `has_versions_dir`
/// reports whether the path holds a `versions` subdirectory.
pub fn identify_launcher_from_path(path: &str, has_versions_dir: bool) -> (r: LauncherType)
    ensures
        r == spec_identify_launcher(path@, has_versions_dir),
{
    if str_contains_ci(path, "modrinth") || str_contains_ci(path, "theseus") {
        LauncherType::Modrinth
    } else if str_contains_ci(path, "curseforge") {
        LauncherType::CurseForge
    } else if str_contains_ci(path, "prism") {
        LauncherType::PrismLauncher
    } else if str_contains_ci(path, "multimc") {
        LauncherType::MultiMC
    } else if str_contains_ci(path, "atlauncher") {
        LauncherType::ATLauncher
    } else if str_contains_ci(path, "gdlauncher") {
        LauncherType::GDLauncher
    } else if str_contains_ci(path, ".minecraft") || has_versions_dir {
        LauncherType::Official
    } else {
        LauncherType::Custom
    }
}

/// Whether a probed path looks like a valid game installation: a `versions`
/// directory (official launcher style), an `instances` directory
/// (multi-instance launchers), or a directory itself named `profiles`.
pub fn validate_minecraft_directory(
    has_versions: bool,
    has_instances: bool,
    dir_name: &str,
) -> (r: bool)
    ensures
        r == (has_versions || has_instances || dir_name@ == "profiles"@),
{
    if has_versions {
        return true;
    }
    if has_instances {
        return true;
    }
    str_eq(dir_name, "profiles")
}

/// Where a launcher keeps its resource packs, relative to its own directory.
pub open spec fn spec_resourcepacks_dir(
    launcher_dir: Seq<char>,
    t: LauncherType,
    has_resourcepacks_subdir: bool,
) -> Seq<char> {
    match t {
        LauncherType::Official => launcher_dir + "/resourcepacks"@,
        LauncherType::Technic | LauncherType::Custom => if has_resourcepacks_subdir {
            launcher_dir + "/resourcepacks"@
        } else {
            launcher_dir
        },
        _ => launcher_dir,
    }
}

/// Get the resource-pack directory for a launcher. Multi-instance launchers
/// keep packs per instance, so their base directory is returned as it stands;
/// `has_resourcepacks_subdir` reports the probe used for custom locations.
pub fn get_resourcepacks_dir(
    launcher_dir: &str,
    launcher_type: &LauncherType,
    has_resourcepacks_subdir: bool,
) -> (r: String)
    ensures
        r@ == spec_resourcepacks_dir(launcher_dir@, *launcher_type, has_resourcepacks_subdir),
{
    match launcher_type {
        LauncherType::Official => concat2(launcher_dir, "/resourcepacks"),
        LauncherType::Technic | LauncherType::Custom => {
            if has_resourcepacks_subdir {
                concat2(launcher_dir, "/resourcepacks")
            } else {
                String::from_str(launcher_dir)
            }
        },
        _ => String::from_str(launcher_dir),
    }
}

/// Build the launcher list from probe findings: one entry per launcher found,
/// in the order probed, each carrying its display name, icon identifier, the
/// directory it was found at, and the icon path the probe located, if any.
pub fn detect_all_launchers(found: &Vec<(LauncherType, String, Option<String>)>) -> (r: Vec<
    LauncherInfo,
>)
    ensures
        r@.len() == found@.len(),
        forall|i: int|
            0 <= i < found@.len() ==> {
                let info = #[trigger] r@[i];
                &&& info.launcher_type == found@[i].0
                &&& info.name@ == spec_display_name(found@[i].0)
                &&& info.minecraft_dir@ == found@[i].1@
                &&& info.found == true
                &&& info.icon@ == spec_icon(found@[i].0)
                &&& crate::blockstates::opt_str_view(info.icon_path)
                    == crate::blockstates::opt_str_view(found@[i].2)
            },
{
    let mut out: Vec<LauncherInfo> = Vec::new();
    let mut i: usize = 0;
    while i < found.len()
        invariant
            i <= found@.len(),
            out@.len() == i,
            forall|j: int|
                0 <= j < i ==> {
                    let info = #[trigger] out@[j];
                    &&& info.launcher_type == found@[j].0
                    &&& info.name@ == spec_display_name(found@[j].0)
                    &&& info.minecraft_dir@ == found@[j].1@
                    &&& info.found == true
                    &&& info.icon@ == spec_icon(found@[j].0)
                    &&& crate::blockstates::opt_str_view(info.icon_path)
                        == crate::blockstates::opt_str_view(found@[j].2)
                },
        decreases found@.len() - i,
    {
        let launcher_type = found[i].0;
        let name = String::from_str(launcher_type.display_name());
        let icon = String::from_str(launcher_type.icon());
        let minecraft_dir = found[i].1.clone();
        let icon_path: Option<String> = match &found[i].2 {
            Some(p) => Some(p.clone()),
            None => None,
        };
        out.push(
            LauncherInfo { launcher_type, name, minecraft_dir, found: true, icon, icon_path },
        );
        i += 1;
    }
    out
}

} // verus!
