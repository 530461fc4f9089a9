use weaverbird::asset_indexer::{extract_asset_id, extract_labels, index_assets, PackListing};

#[test]
fn test_extract_asset_id() {
    assert_eq!(
        extract_asset_id("assets/minecraft/textures/block/stone.png"),
        Some("minecraft:block/stone".to_string())
    );

    assert_eq!(
        extract_asset_id("assets/minecraft/textures/entity/zombie.png"),
        Some("minecraft:entity/zombie".to_string())
    );

    assert_eq!(extract_asset_id("pack.mcmeta"), None);
    assert_eq!(extract_asset_id("assets/minecraft/lang/en_us.json"), None);
}

#[test]
fn test_extract_labels() {
    let labels = extract_labels("minecraft:block/stone");
    assert!(labels.contains(&"minecraft".to_string()));
    assert!(labels.contains(&"block".to_string()));
    assert!(labels.contains(&"stone".to_string()));
}

#[test]
fn test_extract_labels_order() {
    let labels = extract_labels("minecraft:block/stone");
    assert_eq!(
        labels,
        vec![
            "minecraft".to_string(),
            "block".to_string(),
            "stone".to_string()
        ]
    );
    // empty segments are dropped, the namespace is kept as it stands
    assert_eq!(
        extract_labels("mypack:block//deep/stone"),
        vec![
            "mypack".to_string(),
            "block".to_string(),
            "deep".to_string(),
            "stone".to_string()
        ]
    );
    assert_eq!(extract_labels("block/stone"), vec!["block".to_string(), "stone".to_string()]);
}

fn listing(pack_id: &str, files: &[&str]) -> PackListing {
    PackListing {
        pack_id: pack_id.to_string(),
        files: files.iter().map(|f| f.to_string()).collect(),
    }
}

#[test]
fn test_index_assets_records_sorted_and_merged() {
    let listings = vec![
        listing(
            "alpha.zip",
            &[
                "assets/minecraft/textures/block/stone.png",
                "assets/minecraft/textures/block/dirt.png",
                "pack.mcmeta",
            ],
        ),
        listing(
            "beta",
            &[
                "assets/minecraft/textures/block/dirt.png",
                "assets/minecraft/textures/block/dirt.jpg",
            ],
        ),
    ];
    let (records, providers) = index_assets(&listings);

    assert_eq!(records.len(), 2);
    // sorted by identifier: dirt before stone
    assert_eq!(records[0].id, "minecraft:block/dirt");
    assert_eq!(records[1].id, "minecraft:block/stone");
    // files deduplicated across packs, first occurrence kept
    assert_eq!(
        records[0].files,
        vec![
            "assets/minecraft/textures/block/dirt.png".to_string(),
            "assets/minecraft/textures/block/dirt.jpg".to_string()
        ]
    );
    assert_eq!(
        records[0].labels,
        vec!["minecraft".to_string(), "block".to_string(), "dirt".to_string()]
    );

    assert_eq!(providers.len(), 2);
    assert_eq!(providers[0].0, "minecraft:block/dirt");
    assert_eq!(
        providers[0].1,
        vec!["alpha.zip".to_string(), "beta".to_string()]
    );
    assert_eq!(providers[1].0, "minecraft:block/stone");
    assert_eq!(providers[1].1, vec!["alpha.zip".to_string()]);
}

#[test]
fn test_provider_map_only_defining_packs() {
    // the pack scanned first lacks the identifier; the second defines it
    let listings = vec![
        listing("p1", &["assets/minecraft/textures/block/stone.png"]),
        listing("p2", &["assets/minecraft/textures/block/unique.png"]),
    ];
    let (_, providers) = index_assets(&listings);
    let x = providers
        .iter()
        .find(|e| e.0 == "minecraft:block/unique")
        .expect("identifier defined by p2 must be indexed");
    assert_eq!(x.1, vec!["p2".to_string()]);
}

#[test]
fn test_index_assets_empty() {
    let (records, providers) = index_assets(&Vec::new());
    assert!(records.is_empty());
    assert!(providers.is_empty());
}
