//! Baseline cache planning: the disk-resident, versioned extraction of the
//! base game's own textures, models and blockstates, used as the universal
//! fallback beneath all active packs.
//!
//! The decisions live here: where the cache sits, which game version archive
//! to read, which entries to extract, and whether a rebuild is due. Reading
//! directories, opening archives and writing files are the application's work;
//! it probes the filesystem and hands the results in as plain values.

use vstd::prelude::*;
use vstd::string::StrSliceExecFns;
use vstd::string::StringExecFns;

use crate::asset_indexer::lemma_filter_take_step;
use crate::error::{AppError, AppResult};
use crate::mc_paths::Platform;
use crate::text::{concat2, ends_with, starts_with, str_ends_with, str_eq, str_starts_with,
    substring};

verus! {

/// Where the baseline cache lives under the platform cache directory.
pub open spec fn spec_vanilla_cache_dir(cache_root: Seq<char>) -> Seq<char> {
    cache_root + "/weaverbird/vanilla_textures"@
}

/// The directory where baseline assets are cached, under the platform cache
/// directory.
pub fn get_vanilla_cache_dir(cache_root: &str) -> (r: String)
    ensures
        r@ == spec_vanilla_cache_dir(cache_root@),
{
    concat2(cache_root, "/weaverbird/vanilla_textures")
}

/// The sentinel whose presence gates re-extraction; widening the extraction
/// scope requires renaming it so old caches are treated stale.
pub fn vanilla_marker_path(cache_dir: &str) -> (r: String)
    ensures
        r@ == cache_dir@ + "/.extracted_v2"@,
{
    concat2(cache_dir, "/.extracted_v2")
}

/// Whether a directory is a usable game installation, from the probed facts:
/// the directory must exist and offer a version list, either directly, or —
/// when the directory is not itself the launcher's `meta` directory — under
/// `meta/versions`.
pub open spec fn spec_minecraft_installation(
    exists: bool,
    has_versions: bool,
    dir_name: Seq<char>,
    has_meta_versions: bool,
) -> bool {
    exists && (has_versions || (if dir_name == "meta"@ {
        has_versions
    } else {
        has_meta_versions
    }))
}

/// Check whether a game installation lives at a probed directory.
///
/// `exists` and `has_versions` report the directory and its `versions`
/// subdirectory; `dir_name` is the directory's own name; `has_meta_versions`
/// reports `meta/versions` beneath it.
pub fn check_minecraft_installation(
    exists: bool,
    has_versions: bool,
    dir_name: &str,
    has_meta_versions: bool,
) -> (r: bool)
    ensures
        r == spec_minecraft_installation(exists, has_versions, dir_name@, has_meta_versions),
{
    if !exists {
        return false;
    }
    if has_versions {
        return true;
    }
    if str_eq(dir_name, "meta") {
        has_versions
    } else {
        has_meta_versions
    }
}

/// The suggested game directories of a platform, under the user's home (or,
/// on Windows, application-data) directory.
pub open spec fn spec_suggested_minecraft_paths(platform: Platform, base: Seq<char>) -> Seq<
    Seq<char>,
> {
    match platform {
        Platform::MacOs => seq![
            base + "/Library/Application Support/minecraft"@,
            base + "/Library/Application Support/ModrinthApp/meta"@,
            base + "/Library/Application Support/com.modrinth.theseus/meta"@,
        ],
        Platform::Windows => seq![
            base + "/.minecraft"@,
            base + "\\.minecraft"@,
            base + "\\ModrinthApp\\meta"@,
            base + "\\com.modrinth.theseus\\meta"@,
        ],
        Platform::Linux => seq![
            base + "/.minecraft"@,
            base + "/.local/share/ModrinthApp/meta"@,
            base + "/.local/share/com.modrinth.theseus/meta"@,
        ],
    }
}

/// Suggested game directory paths for a platform.
pub fn get_suggested_minecraft_paths(platform: &Platform, base: &str) -> (r: Vec<String>)
    ensures
        r@.map_values(|x: String| x@) == spec_suggested_minecraft_paths(*platform, base@),
{
    let mut out: Vec<String> = Vec::new();
    match platform {
        Platform::MacOs => {
            out.push(concat2(base, "/Library/Application Support/minecraft"));
            out.push(concat2(base, "/Library/Application Support/ModrinthApp/meta"));
            out.push(concat2(base, "/Library/Application Support/com.modrinth.theseus/meta"));
        },
        Platform::Windows => {
            out.push(concat2(base, "/.minecraft"));
            out.push(concat2(base, "\\.minecraft"));
            out.push(concat2(base, "\\ModrinthApp\\meta"));
            out.push(concat2(base, "\\com.modrinth.theseus\\meta"));
        },
        Platform::Linux => {
            out.push(concat2(base, "/.minecraft"));
            out.push(concat2(base, "/.local/share/ModrinthApp/meta"));
            out.push(concat2(base, "/.local/share/com.modrinth.theseus/meta"));
        },
    }
    proof {
        assert(out@.map_values(|x: String| x@) =~= spec_suggested_minecraft_paths(
            *platform,
            base@,
        ));
    }
    out
}

/// One probed game-version directory: its name, its modification time, and
/// whether it holds the archive named after its own version folder.
#[derive(Debug)]
pub struct VersionCandidate {
    pub name: String,
    pub modified: u64,
    pub has_jar: bool,
}

/// Find the game version to extract from: among the candidates that hold
/// their own archive, the most recently modified one, ties going to the
/// earliest listed. Returns its index, or `None` when no candidate qualifies.
pub fn find_latest_version_jar_from_dir(candidates: &Vec<VersionCandidate>) -> (r: Option<usize>)
    ensures
        match r {
            Some(i) => i < candidates@.len() && candidates@[i as int].has_jar && (forall|j: int|
                0 <= j < candidates@.len() && j != i && (#[trigger] candidates@[j]).has_jar
                    ==> candidates@[j].modified < candidates@[i as int].modified || (
                candidates@[j].modified == candidates@[i as int].modified && j > i)),
            None => forall|j: int|
                0 <= j < candidates@.len() ==> !(#[trigger] candidates@[j]).has_jar,
        },
{
    let mut best: Option<usize> = None;
    let mut j: usize = 0;
    while j < candidates.len()
        invariant
            j <= candidates@.len(),
            match best {
                Some(b) => b < j && candidates@[b as int].has_jar && (forall|k: int|
                    0 <= k < j && k != b && (#[trigger] candidates@[k]).has_jar
                        ==> candidates@[k].modified < candidates@[b as int].modified || (
                    candidates@[k].modified == candidates@[b as int].modified && k > b)),
                None => forall|k: int| 0 <= k < j ==> !(#[trigger] candidates@[k]).has_jar,
            },
        decreases candidates@.len() - j,
    {
        if candidates[j].has_jar {
            match best {
                None => {
                    best = Some(j);
                },
                Some(b) => {
                    if candidates[j].modified > candidates[b].modified {
                        best = Some(j);
                    }
                },
            }
        }
        j += 1;
    }
    best
}

/// The relative path of a version's own archive under the versions directory.
pub fn version_jar_rel_path(name: &str) -> (r: String)
    ensures
        r@ == name@ + "/"@ + name@ + ".jar"@,
{
    let mut out = String::from_str(name);
    out.append("/");
    out.append(name);
    out.append(".jar");
    out
}

/// Whether an archive entry belongs to the baseline extraction: textures as
/// images, models and blockstates as their definition files, all under
/// `assets/minecraft/`.
pub open spec fn spec_should_extract(p: Seq<char>) -> bool {
    ||| (starts_with(p, "assets/minecraft/textures/"@) && ends_with(p, ".png"@))
    ||| (starts_with(p, "assets/minecraft/models/"@) && ends_with(p, ".json"@))
    ||| (starts_with(p, "assets/minecraft/blockstates/"@) && ends_with(p, ".json"@))
}

/// The entry predicate of the baseline extraction.
pub open spec fn extract_pred() -> spec_fn(Seq<char>) -> bool {
    |p: Seq<char>| spec_should_extract(p)
}

/// Whether an archive entry belongs to the baseline extraction.
pub fn should_extract_entry(path: &str) -> (r: bool)
    ensures
        r == spec_should_extract(path@),
{
    if str_starts_with(path, "assets/minecraft/textures/") && str_ends_with(path, ".png") {
        return true;
    }
    if str_starts_with(path, "assets/minecraft/models/") && str_ends_with(path, ".json") {
        return true;
    }
    str_starts_with(path, "assets/minecraft/blockstates/") && str_ends_with(path, ".json")
}

/// Select the archive entries the baseline extraction materializes, order
/// preserved. The selected entries are partitioned among independent workers;
/// each writes its own disjoint file set, so selection order is the only
/// order that matters.
pub fn select_entries_to_extract(entries: &Vec<String>) -> (r: Vec<String>)
    ensures
        r@.map_values(|x: String| x@) == entries@.map_values(|x: String| x@).filter(
            extract_pred(),
        ),
{
    let ghost me = entries@.map_values(|x: String| x@);
    let mut out: Vec<String> = Vec::new();
    let mut i: usize = 0;
    proof {
        assert(me.take(0) =~= Seq::<Seq<char>>::empty());
        assert(Seq::<Seq<char>>::empty().filter(extract_pred()) =~= Seq::<Seq<char>>::empty())
            by {
            reveal(Seq::filter);
        }
    }
    while i < entries.len()
        invariant
            i <= entries@.len(),
            me == entries@.map_values(|x: String| x@),
            out@.map_values(|x: String| x@) == me.take(i as int).filter(extract_pred()),
        decreases entries@.len() - i,
    {
        proof {
            lemma_filter_take_step(me, i as int, extract_pred());
            assert(me[i as int] == entries@[i as int]@);
        }
        if should_extract_entry(entries[i].as_str()) {
            out.push(entries[i].clone());
            proof {
                assert(out@.map_values(|x: String| x@) =~= me.take(i as int).filter(
                    extract_pred(),
                ).push(me[i as int]));
            }
        }
        i += 1;
    }
    proof {
        assert(me.take(me.len() as int) =~= me);
    }
    out
}

/// What baseline initialization must do.
#[derive(Debug, Clone, Copy, PartialEq, Eq, Structural)]
pub enum CachePlan {
    /// The marker is present: the cache is valid as it stands and no entry is
    /// extracted.
    UseExisting,
    /// The marker is stale or absent: the cache directory is deleted wholesale
    /// and rebuilt, and the marker written only after every entry extracts.
    Rebuild,
}

/// Plan baseline initialization: the cache path is a function of the cache
/// root alone, and a present marker short-circuits extraction.
pub fn plan_vanilla_initialization(cache_root: &str, marker_present: bool) -> (r: (
    String,
    CachePlan,
))
    ensures
        r.0@ == spec_vanilla_cache_dir(cache_root@),
        r.1 == (if marker_present {
            CachePlan::UseExisting
        } else {
            CachePlan::Rebuild
        }),
{
    let dir = get_vanilla_cache_dir(cache_root);
    if marker_present {
        (dir, CachePlan::UseExisting)
    } else {
        (dir, CachePlan::Rebuild)
    }
}

/// Re-running baseline initialization with the marker already present plans
/// no extraction either time and returns the identical cache path both times:
/// the path depends on the cache root alone, and a present marker always
/// plans `UseExisting`.
pub proof fn lemma_initialization_idempotent(
    root: Seq<char>,
    first: (Seq<char>, CachePlan),
    second: (Seq<char>, CachePlan),
)
    requires
        first.0 == spec_vanilla_cache_dir(root),
        first.1 == CachePlan::UseExisting,
        second.0 == spec_vanilla_cache_dir(root),
        second.1 == CachePlan::UseExisting,
    ensures
        first.0 == second.0,
        second.1 == CachePlan::UseExisting,
{
}

/// The baseline path of a texture asset: the identifier's path under the
/// cache's `assets/minecraft/textures/` tree, as an image file.
pub open spec fn spec_vanilla_texture_path(cache_dir: Seq<char>, asset_id: Seq<char>) -> Seq<
    char,
> {
    let tp = if starts_with(asset_id, "minecraft:"@) {
        asset_id.skip("minecraft:"@.len() as int)
    } else {
        asset_id
    };
    cache_dir + "/assets/minecraft/textures/"@ + tp + ".png"@
}

/// The path of a baseline texture by asset identifier; `exists` reports
/// whether the file is present, and absence is a not-found error.
pub fn get_vanilla_texture_path(cache_dir: &str, asset_id: &str, exists: bool) -> (r: AppResult<
    String,
>)
    ensures
        match r {
            Ok(p) => exists && p@ == spec_vanilla_texture_path(cache_dir@, asset_id@),
            Err(e) => !exists && e.code@ == "NOT_FOUND_ERROR"@,
        },
{
    if !exists {
        return Err(AppError::not_found(concat2("Vanilla texture not found: ", asset_id).as_str()));
    }
    let sn: usize = asset_id.unicode_len();
    let texture_path: String = if str_starts_with(asset_id, "minecraft:") {
        let pl: usize = "minecraft:".unicode_len();
        let r = substring(asset_id, pl, sn);
        proof {
            assert(asset_id@.skip(pl as int) =~= asset_id@.subrange(pl as int, sn as int));
        }
        r
    } else {
        String::from_str(asset_id)
    };
    let mut out = String::from_str(cache_dir);
    out.append("/assets/minecraft/textures/");
    out.append(texture_path.as_str());
    out.append(".png");
    Ok(out)
}

/// The path of a biome colormap file (`grass` or `foliage`) under the cache;
/// `exists` reports whether the file is present.
pub fn get_colormap_path(cache_dir: &str, colormap_type: &str, exists: bool) -> (r: AppResult<
    String,
>)
    ensures
        match r {
            Ok(p) => exists && p@ == cache_dir@ + "/assets/minecraft/textures/colormap/"@
                + colormap_type@ + ".png"@,
            Err(e) => !exists && e.code@ == "NOT_FOUND_ERROR"@,
        },
{
    if !exists {
        return Err(
            AppError::not_found(concat2("Colormap not found: ", colormap_type).as_str()),
        );
    }
    let mut out = String::from_str(cache_dir);
    out.append("/assets/minecraft/textures/colormap/");
    out.append(colormap_type);
    out.append(".png");
    Ok(out)
}

} // verus!
