use weaverbird::blockstates::{
    blockstate_asset_path, extract_first_model, get_default_model, texture_id_to_block_id,
    Blockstate, BlockstateVariant, ModelReference, MultipartCase,
};

fn model_ref(model: &str) -> ModelReference {
    ModelReference {
        model: model.to_string(),
        x: None,
        y: None,
        uvlock: None,
        weight: None,
    }
}

#[test]
fn test_texture_id_to_block_id() {
    assert_eq!(
        texture_id_to_block_id("minecraft:block/dirt"),
        Some("dirt".to_string())
    );
    assert_eq!(
        texture_id_to_block_id("block/stone"),
        Some("stone".to_string())
    );
    assert_eq!(texture_id_to_block_id("minecraft:item/stick"), None);

    // Test variant stripping
    assert_eq!(
        texture_id_to_block_id("minecraft:block/amethyst_block1"),
        Some("amethyst_block".to_string())
    );
    assert_eq!(
        texture_id_to_block_id("minecraft:block/dirt0"),
        Some("dirt".to_string())
    );
    assert_eq!(
        texture_id_to_block_id("minecraft:block/stone123"),
        Some("stone".to_string())
    );

    // Test texture part suffix stripping
    assert_eq!(
        texture_id_to_block_id("minecraft:block/acacia_log_top"),
        Some("acacia_log".to_string())
    );
    assert_eq!(
        texture_id_to_block_id("minecraft:block/oak_log_top"),
        Some("oak_log".to_string())
    );
    assert_eq!(
        texture_id_to_block_id("minecraft:block/furnace_front"),
        Some("furnace".to_string())
    );
    assert_eq!(
        texture_id_to_block_id("minecraft:block/grass_block_side"),
        Some("grass_block".to_string())
    );
}

#[test]
fn test_get_default_model_variants() {
    // the empty-string key wins over everything
    let bs = Blockstate {
        variants: Some(vec![
            ("facing=north".to_string(), BlockstateVariant::Single(model_ref("block/north"))),
            ("".to_string(), BlockstateVariant::Single(model_ref("block/default"))),
        ]),
        multipart: None,
    };
    assert_eq!(get_default_model(&bs), Some("block/default".to_string()));

    // the "normal" key is the older equivalent
    let bs = Blockstate {
        variants: Some(vec![
            ("facing=north".to_string(), BlockstateVariant::Single(model_ref("block/north"))),
            ("normal".to_string(), BlockstateVariant::Single(model_ref("block/normal"))),
        ]),
        multipart: None,
    };
    assert_eq!(get_default_model(&bs), Some("block/normal".to_string()));

    // otherwise the first variant wins; a weighted list takes its first entry
    let bs = Blockstate {
        variants: Some(vec![(
            "age=0".to_string(),
            BlockstateVariant::Multiple(vec![model_ref("block/age0a"), model_ref("block/age0b")]),
        )]),
        multipart: None,
    };
    assert_eq!(get_default_model(&bs), Some("block/age0a".to_string()));
}

#[test]
fn test_get_default_model_multipart() {
    // the first case without a condition wins
    let bs = Blockstate {
        variants: None,
        multipart: Some(vec![
            MultipartCase {
                when: Some("{\"north\":true}".to_string()),
                apply: BlockstateVariant::Single(model_ref("block/fence_side")),
            },
            MultipartCase {
                when: None,
                apply: BlockstateVariant::Single(model_ref("block/fence_post")),
            },
        ]),
    };
    assert_eq!(get_default_model(&bs), Some("block/fence_post".to_string()));

    // when every case is conditional, the first one wins
    let bs = Blockstate {
        variants: None,
        multipart: Some(vec![MultipartCase {
            when: Some("{\"up\":true}".to_string()),
            apply: BlockstateVariant::Single(model_ref("block/wall_up")),
        }]),
    };
    assert_eq!(get_default_model(&bs), Some("block/wall_up".to_string()));

    // no variants and no multipart: no reference can be determined
    let bs = Blockstate {
        variants: None,
        multipart: None,
    };
    assert_eq!(get_default_model(&bs), None);
}

#[test]
fn test_extract_first_model_empty_list() {
    assert_eq!(extract_first_model(&BlockstateVariant::Multiple(Vec::new())), None);
    assert_eq!(
        extract_first_model(&BlockstateVariant::Single(model_ref("block/x"))),
        Some("block/x".to_string())
    );
}

#[test]
fn test_blockstate_asset_path() {
    assert_eq!(
        blockstate_asset_path("dirt"),
        "assets/minecraft/blockstates/dirt.json"
    );
}
