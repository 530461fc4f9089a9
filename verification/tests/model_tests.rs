use weaverbird::block_models::{
    model_id_to_path, normalize_model_id, read_block_model, read_block_model_with_fallback,
    resolve_block_model, resolve_textures, BlockModel, ModelStore, TextureTable,
};

#[test]
fn test_normalize_model_id() {
    assert_eq!(normalize_model_id("block/dirt"), "minecraft:block/dirt");
    assert_eq!(
        normalize_model_id("minecraft:block/stone"),
        "minecraft:block/stone"
    );
}

#[test]
fn test_model_id_to_path() {
    assert_eq!(
        model_id_to_path("minecraft:block/dirt"),
        "assets/minecraft/models/block/dirt.json"
    );
}

fn table(entries: &[(&str, &str)]) -> TextureTable {
    TextureTable {
        entries: entries
            .iter()
            .map(|(k, v)| (k.to_string(), v.to_string()))
            .collect(),
    }
}

fn model(parent: Option<&str>, textures: Option<&[(&str, &str)]>) -> BlockModel {
    BlockModel {
        parent: parent.map(|p| p.to_string()),
        textures: textures.map(table),
        elements: None,
        ambientocclusion: None,
    }
}

#[test]
fn test_resolve_textures() {
    let model = model(None, Some(&[("all", "#base"), ("base", "minecraft:block/dirt")]));

    let resolved = resolve_textures(&model);
    assert_eq!(
        resolved.get("all"),
        Some(&"minecraft:block/dirt".to_string())
    );
    assert_eq!(
        resolved.get("base"),
        Some(&"minecraft:block/dirt".to_string())
    );
}

#[test]
fn test_texture_table_insert_shadows() {
    let mut t = TextureTable::new();
    t.insert("all", "#base");
    t.insert("base", "minecraft:block/dirt");
    t.insert("all", "minecraft:block/stone");
    // the latest binding of a name wins
    assert_eq!(t.get("all"), Some(&"minecraft:block/stone".to_string()));
    assert_eq!(t.get("base"), Some(&"minecraft:block/dirt".to_string()));
    assert_eq!(t.get("missing"), None);
}

#[test]
fn test_resolve_textures_unresolved_reference() {
    let model = model(None, Some(&[("x", "#missing")]));
    let resolved = resolve_textures(&model);
    assert_eq!(resolved.get("x"), Some(&"#missing".to_string()));
}

#[test]
fn test_resolve_textures_cycle_stops() {
    let model = model(None, Some(&[("a", "#b"), ("b", "#a")]));
    let resolved = resolve_textures(&model);
    // a cycle resolves to whatever value the last hop reached, without error
    let v = resolved.get("a").expect("key kept");
    assert!(v == "#a" || v == "#b");
}

#[test]
fn test_read_block_model_fallback() {
    let mut pack = ModelStore::new();
    pack.insert(
        "minecraft:block/stone".to_string(),
        model(None, Some(&[("all", "minecraft:block/stone")])),
    );
    let mut vanilla = ModelStore::new();
    vanilla.insert(
        "minecraft:block/dirt".to_string(),
        model(None, Some(&[("all", "minecraft:block/dirt")])),
    );

    // present in the pack
    assert!(read_block_model(&pack, "block/stone").is_ok());
    // absent from the pack, found in the baseline
    let m = read_block_model_with_fallback(&pack, "block/dirt", &vanilla).unwrap();
    assert_eq!(
        m.textures.unwrap().entries,
        vec![("all".to_string(), "minecraft:block/dirt".to_string())]
    );
    // absent from both: a not-found error
    let err = read_block_model_with_fallback(&pack, "block/nowhere", &vanilla).unwrap_err();
    assert_eq!(err.code, "NOT_FOUND_ERROR");
}

#[test]
fn test_resolve_block_model_merges_chain() {
    let mut pack = ModelStore::new();
    pack.insert(
        "minecraft:block/a".to_string(),
        model(Some("minecraft:block/b"), Some(&[("top", "minecraft:block/a_top")])),
    );
    pack.insert(
        "minecraft:block/b".to_string(),
        BlockModel {
            parent: Some("minecraft:block/c".to_string()),
            textures: Some(table(&[("top", "minecraft:block/b_top"), ("side", "minecraft:block/b_side")])),
            elements: Some(vec!["{\"from\":[0,0,0]}".to_string()]),
            ambientocclusion: None,
        },
    );
    pack.insert(
        "minecraft:block/c".to_string(),
        BlockModel {
            parent: None,
            textures: Some(table(&[("base", "minecraft:block/c_base")])),
            elements: None,
            ambientocclusion: Some(false),
        },
    );
    let vanilla = ModelStore::new();

    let resolved = resolve_block_model(&pack, "minecraft:block/a", &vanilla).unwrap();
    // the merged result carries no parent
    assert!(resolved.parent.is_none());
    // child entries win; parent-only entries survive
    let t = resolve_textures(&resolved);
    assert_eq!(t.get("top"), Some(&"minecraft:block/a_top".to_string()));
    assert_eq!(t.get("side"), Some(&"minecraft:block/b_side".to_string()));
    assert_eq!(t.get("base"), Some(&"minecraft:block/c_base".to_string()));
    // geometry is replaced wholesale by the nearest child that defines any
    assert_eq!(resolved.elements, Some(vec!["{\"from\":[0,0,0]}".to_string()]));
    assert_eq!(resolved.ambientocclusion, Some(false));
}

#[test]
fn test_merge_chain_associative() {
    // Resolving A -> B -> C gives the same texture table as pre-merging B
    // over C by hand and resolving A over that.
    let a = || model(Some("minecraft:block/b"), Some(&[("x", "from_a")]));
    let b = model(
        Some("minecraft:block/c"),
        Some(&[("x", "from_b"), ("y", "from_b")]),
    );
    let c = model(None, Some(&[("y", "from_c"), ("z", "from_c")]));

    let mut chain = ModelStore::new();
    chain.insert("minecraft:block/a".to_string(), a());
    chain.insert("minecraft:block/b".to_string(), b);
    chain.insert("minecraft:block/c".to_string(), c);

    // b merged over c, written out by hand: child entries shadow the parent's
    let b_over_c = model(
        None,
        Some(&[("y", "from_b"), ("z", "from_c"), ("x", "from_b")]),
    );
    let mut premerged = ModelStore::new();
    let mut a2 = a();
    a2.parent = Some("minecraft:block/bc".to_string());
    premerged.insert("minecraft:block/a".to_string(), a2);
    premerged.insert("minecraft:block/bc".to_string(), b_over_c);

    let vanilla = ModelStore::new();
    let r1 = resolve_block_model(&chain, "minecraft:block/a", &vanilla).unwrap();
    let r2 = resolve_block_model(&premerged, "minecraft:block/a", &vanilla).unwrap();

    for key in ["x", "y", "z"] {
        let t1 = resolve_textures(&r1);
        let t2 = resolve_textures(&r2);
        assert_eq!(t1.get(key), t2.get(key), "texture variable {}", key);
    }
}

#[test]
fn test_self_referencing_parent_fails_depth() {
    let mut pack = ModelStore::new();
    pack.insert(
        "minecraft:block/loop".to_string(),
        model(Some("minecraft:block/loop"), None),
    );
    let vanilla = ModelStore::new();
    let err = resolve_block_model(&pack, "minecraft:block/loop", &vanilla).unwrap_err();
    assert_eq!(err.code, "DEPTH_EXCEEDED_ERROR");
}

#[test]
fn test_model_id_to_path_without_namespace() {
    assert_eq!(
        model_id_to_path("block/dirt"),
        "assets/minecraft/models/block/dirt.json"
    );
    assert_eq!(
        model_id_to_path("mypack:item/stick"),
        "assets/mypack/models/item/stick.json"
    );
}
