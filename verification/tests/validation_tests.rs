use weaverbird::error::AppError;
use weaverbird::texture_to_block_map::{build_texture_to_block_map, extract_textures_from_blockstate};
use weaverbird::blockstates::Blockstate;
use weaverbird::validation::{
    validate_build_request, validate_directory, validate_overrides, validate_pack_order,
};

#[test]
fn test_error_constructors() {
    assert_eq!(AppError::validation("bad").code, "VALIDATION_ERROR");
    assert_eq!(AppError::io("bad").code, "IO_ERROR");
    assert_eq!(AppError::scan("bad").code, "SCAN_ERROR");
    assert_eq!(AppError::build("bad").code, "BUILD_ERROR");
    assert_eq!(AppError::not_found("bad").code, "NOT_FOUND_ERROR");
    assert_eq!(AppError::depth_exceeded("bad").code, "DEPTH_EXCEEDED_ERROR");
    let e = AppError::internal("bad", "details");
    assert_eq!(e.code, "INTERNAL_ERROR");
    assert_eq!(e.details, Some("details".to_string()));
    let e = AppError::validation("bad").with_details("more");
    assert_eq!(e.details, Some("more".to_string()));
    assert_eq!(e.message, "bad");
}

#[test]
fn test_validate_directory() {
    assert!(validate_directory("/tmp/packs", "Packs directory", true, true).is_ok());

    let e = validate_directory("", "Packs directory", true, true).unwrap_err();
    assert_eq!(e.code, "VALIDATION_ERROR");
    assert_eq!(e.message, "Packs directory cannot be empty");

    let e = validate_directory("/nope", "Packs directory", false, false).unwrap_err();
    assert_eq!(e.code, "IO_ERROR");
    assert_eq!(e.message, "Packs directory does not exist: /nope");

    let e = validate_directory("/a/file.txt", "Packs directory", true, false).unwrap_err();
    assert_eq!(e.code, "VALIDATION_ERROR");
    assert_eq!(e.message, "Packs directory is not a directory: /a/file.txt");
}

#[test]
fn test_validate_pack_order() {
    assert!(validate_pack_order(&vec!["a".to_string()]).is_ok());
    let e = validate_pack_order(&Vec::new()).unwrap_err();
    assert_eq!(e.code, "VALIDATION_ERROR");
    assert_eq!(e.message, "Pack order cannot be empty");
}

#[test]
fn test_validate_overrides() {
    let order = vec!["a.zip".to_string(), "b".to_string()];
    let good = vec![("minecraft:block/stone".to_string(), "b".to_string())];
    assert!(validate_overrides(&good, &order).is_ok());

    let empty_asset = vec![("".to_string(), "b".to_string())];
    assert_eq!(
        validate_overrides(&empty_asset, &order).unwrap_err().code,
        "VALIDATION_ERROR"
    );

    let empty_pack = vec![("minecraft:block/stone".to_string(), "".to_string())];
    assert_eq!(
        validate_overrides(&empty_pack, &order).unwrap_err().code,
        "VALIDATION_ERROR"
    );

    let unknown_pack = vec![("minecraft:block/stone".to_string(), "ghost".to_string())];
    assert_eq!(
        validate_overrides(&unknown_pack, &order).unwrap_err().code,
        "VALIDATION_ERROR"
    );
}

#[test]
fn test_validate_build_request() {
    let order = vec!["a".to_string()];
    let overrides = vec![("x".to_string(), "a".to_string())];
    assert!(
        validate_build_request("/packs", true, true, &order, &overrides, "/out", true, true)
            .is_ok()
    );
    // a missing packs directory fails the whole request
    assert!(
        validate_build_request("/packs", false, false, &order, &overrides, "/out", true, true)
            .is_err()
    );
    // an empty pack order fails the whole request
    assert!(
        validate_build_request("/packs", true, true, &Vec::new(), &overrides, "/out", true, true)
            .is_err()
    );
}

#[test]
fn test_texture_to_block_map_is_empty() {
    let bs = Blockstate {
        variants: None,
        multipart: None,
    };
    assert!(extract_textures_from_blockstate(&bs).is_empty());
    let named = vec![("dirt".to_string(), bs)];
    assert!(build_texture_to_block_map(&named).is_empty());
}

#[test]
fn test_list_zip_files() {
    // Reading a real archive needs one on disk; the archive reader lives with
    // the application, so nothing is exercised here.
}
