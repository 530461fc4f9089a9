use weaverbird::launcher_detection::{
    detect_all_launchers, get_resourcepacks_dir, identify_launcher_from_path,
    validate_minecraft_directory, LauncherType,
};
use weaverbird::mc_paths::{
    get_default_minecraft_dir, get_default_resourcepacks_dir, is_valid_packs_dir, Platform,
};
use weaverbird::vanilla_textures::{
    check_minecraft_installation, find_latest_version_jar_from_dir, get_colormap_path,
    get_suggested_minecraft_paths, get_vanilla_cache_dir, get_vanilla_texture_path,
    plan_vanilla_initialization, select_entries_to_extract, should_extract_entry,
    vanilla_marker_path, CachePlan, VersionCandidate,
};

#[test]
fn test_detect_launchers() {
    let found = vec![
        (LauncherType::Official, "/home/user/.minecraft".to_string(), None),
        (
            LauncherType::Modrinth,
            "/home/user/.local/share/com.modrinth.theseus/profiles".to_string(),
            None,
        ),
    ];
    let launchers = detect_all_launchers(&found);
    println!("Found {} launcher(s)", launchers.len());
    for launcher in &launchers {
        println!("  - {}: {}", launcher.name, launcher.minecraft_dir);
    }
    assert_eq!(launchers.len(), 2);
    assert!(launchers.iter().all(|l| l.found));
    assert_eq!(launchers[1].icon, "modrinth");
}

#[test]
fn test_launcher_display_names() {
    assert_eq!(
        LauncherType::Official.display_name(),
        "Minecraft (Official Launcher)"
    );
    assert_eq!(LauncherType::Modrinth.display_name(), "Modrinth App");
}

#[test]
fn test_identify_launcher_from_path() {
    assert_eq!(
        identify_launcher_from_path("/home/u/.local/share/ModrinthApp/profiles", false),
        LauncherType::Modrinth
    );
    assert_eq!(
        identify_launcher_from_path("/Users/u/CurseForge/minecraft/Install", false),
        LauncherType::CurseForge
    );
    assert_eq!(
        identify_launcher_from_path("/home/u/.minecraft", false),
        LauncherType::Official
    );
    assert_eq!(
        identify_launcher_from_path("/srv/games/mc", true),
        LauncherType::Official
    );
    assert_eq!(
        identify_launcher_from_path("/srv/games/mc", false),
        LauncherType::Custom
    );
}

#[test]
fn test_validate_minecraft_directory() {
    assert!(validate_minecraft_directory(true, false, "minecraft"));
    assert!(validate_minecraft_directory(false, true, "instances_root"));
    assert!(validate_minecraft_directory(false, false, "profiles"));
    assert!(!validate_minecraft_directory(false, false, "downloads"));
}

#[test]
fn test_get_resourcepacks_dir() {
    assert_eq!(
        get_resourcepacks_dir("/home/u/.minecraft", &LauncherType::Official, false),
        "/home/u/.minecraft/resourcepacks"
    );
    assert_eq!(
        get_resourcepacks_dir("/home/u/instances", &LauncherType::MultiMC, true),
        "/home/u/instances"
    );
    assert_eq!(
        get_resourcepacks_dir("/srv/mc", &LauncherType::Custom, true),
        "/srv/mc/resourcepacks"
    );
    assert_eq!(
        get_resourcepacks_dir("/srv/mc", &LauncherType::Custom, false),
        "/srv/mc"
    );
}

#[test]
fn test_get_default_minecraft_dir() {
    let dir = get_default_minecraft_dir(&Platform::Linux, "/home/user");
    assert_eq!(dir, "/home/user/.minecraft");
    assert_eq!(
        get_default_minecraft_dir(&Platform::MacOs, "/Users/u"),
        "/Users/u/Library/Application Support/minecraft"
    );
}

#[test]
fn test_get_default_resourcepacks_dir() {
    let dir = get_default_resourcepacks_dir(&Platform::Linux, "/home/user");
    assert_eq!(dir, "/home/user/.minecraft/resourcepacks");
}

#[test]
fn test_is_valid_packs_dir() {
    assert!(is_valid_packs_dir(true, true));
    assert!(!is_valid_packs_dir(true, false));
    assert!(!is_valid_packs_dir(false, true));
}

#[test]
fn test_get_vanilla_cache_dir() {
    let cache_dir = get_vanilla_cache_dir("/home/user/.cache");
    assert_eq!(cache_dir, "/home/user/.cache/weaverbird/vanilla_textures");
    assert_eq!(
        vanilla_marker_path(&cache_dir),
        "/home/user/.cache/weaverbird/vanilla_textures/.extracted_v2"
    );
}

#[test]
fn test_get_suggested_paths() {
    let paths = get_suggested_minecraft_paths(&Platform::Linux, "/home/user");
    assert!(!paths.is_empty());
    assert_eq!(paths[0], "/home/user/.minecraft");
}

#[test]
fn test_find_latest_version_jar() {
    fn candidate(name: &str, modified: u64, has_jar: bool) -> VersionCandidate {
        VersionCandidate {
            name: name.to_string(),
            modified,
            has_jar,
        }
    }
    // the most recently modified version with its own archive wins
    let candidates = vec![
        candidate("1.20.1", 100, true),
        candidate("1.21.0", 300, false),
        candidate("1.20.4", 200, true),
    ];
    let result = find_latest_version_jar_from_dir(&candidates);
    assert_eq!(result, Some(2));
    println!("Found JAR: {:?}", candidates[2].name);

    // ties go to the earliest listed
    let tied = vec![candidate("a", 50, true), candidate("b", 50, true)];
    assert_eq!(find_latest_version_jar_from_dir(&tied), Some(0));

    // no candidate holds its archive
    let none = vec![candidate("a", 50, false)];
    assert_eq!(find_latest_version_jar_from_dir(&none), None);
}

#[test]
fn test_should_extract_entry() {
    assert!(should_extract_entry("assets/minecraft/textures/block/stone.png"));
    assert!(should_extract_entry("assets/minecraft/models/block/dirt.json"));
    assert!(should_extract_entry("assets/minecraft/blockstates/dirt.json"));
    assert!(!should_extract_entry("assets/minecraft/textures/block/stone.png.mcmeta"));
    assert!(!should_extract_entry("assets/minecraft/lang/en_us.json"));
    assert!(!should_extract_entry("data/minecraft/recipes/stone.json"));
}

#[test]
fn test_select_entries_keeps_order() {
    let entries: Vec<String> = vec![
        "assets/minecraft/models/block/a.json".to_string(),
        "pack.mcmeta".to_string(),
        "assets/minecraft/textures/block/b.png".to_string(),
    ];
    let selected = select_entries_to_extract(&entries);
    assert_eq!(
        selected,
        vec![
            "assets/minecraft/models/block/a.json".to_string(),
            "assets/minecraft/textures/block/b.png".to_string()
        ]
    );
}

#[test]
fn test_cache_initialization_idempotent() {
    // with the marker already present, initialization plans zero extraction
    // and returns the identical cache path both times
    let first = plan_vanilla_initialization("/home/user/.cache", true);
    let second = plan_vanilla_initialization("/home/user/.cache", true);
    assert_eq!(first.1, CachePlan::UseExisting);
    assert_eq!(second.1, CachePlan::UseExisting);
    assert_eq!(first.0, second.0);

    // without the marker, the cache is rebuilt wholesale
    assert_eq!(
        plan_vanilla_initialization("/home/user/.cache", false).1,
        CachePlan::Rebuild
    );
}

#[test]
fn test_check_minecraft_installation() {
    assert!(check_minecraft_installation(true, true, "minecraft", false));
    assert!(check_minecraft_installation(true, false, "ModrinthApp", true));
    assert!(!check_minecraft_installation(true, false, "meta", true));
    assert!(!check_minecraft_installation(false, true, "minecraft", true));
}

#[test]
fn test_vanilla_texture_and_colormap_paths() {
    let cache = "/c/weaverbird/vanilla_textures";
    assert_eq!(
        get_vanilla_texture_path(cache, "minecraft:block/stone", true).unwrap(),
        "/c/weaverbird/vanilla_textures/assets/minecraft/textures/block/stone.png"
    );
    assert_eq!(
        get_vanilla_texture_path(cache, "block/stone", true).unwrap(),
        "/c/weaverbird/vanilla_textures/assets/minecraft/textures/block/stone.png"
    );
    let err = get_vanilla_texture_path(cache, "minecraft:block/stone", false).unwrap_err();
    assert_eq!(err.code, "NOT_FOUND_ERROR");

    assert_eq!(
        get_colormap_path(cache, "grass", true).unwrap(),
        "/c/weaverbird/vanilla_textures/assets/minecraft/textures/colormap/grass.png"
    );
    assert!(get_colormap_path(cache, "grass", false).is_err());
}
