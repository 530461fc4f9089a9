//! Input validation for the commands around the library.
//!
//! Directory probes (existence, directory-ness) are made by the application
//! and handed in as plain values; the rules themselves are decided and stated
//! here.

use vstd::prelude::*;

use crate::asset_indexer::has_view;
use crate::error::{AppError, AppResult};
use crate::text::concat2;

verus! {

/// Validate a directory path from its probed facts: it must be non-empty,
/// exist, and be a directory.
pub fn validate_directory(path: &str, label: &str, exists: bool, is_dir: bool) -> (r: AppResult<
    (),
>)
    ensures
        match r {
            Ok(_) => path@.len() > 0 && exists && is_dir,
            Err(e) => (path@.len() == 0 && e.code@ == "VALIDATION_ERROR"@ && e.message@ == label@
                + " cannot be empty"@) || (path@.len() > 0 && !exists && e.code@ == "IO_ERROR"@
                && e.message@ == label@ + " does not exist: "@ + path@) || (path@.len() > 0
                && exists && !is_dir && e.code@ == "VALIDATION_ERROR"@ && e.message@ == label@
                + " is not a directory: "@ + path@),
        },
{
    if path.is_empty() {
        return Err(AppError::validation(concat2(label, " cannot be empty").as_str()));
    }
    if !exists {
        let msg = concat2(label, " does not exist: ").concat(path);
        return Err(AppError::io(msg.as_str()));
    }
    if !is_dir {
        let msg = concat2(label, " is not a directory: ").concat(path);
        return Err(AppError::validation(msg.as_str()));
    }
    Ok(())
}

/// Validate that a pack order is not empty.
pub fn validate_pack_order(order: &Vec<String>) -> (r: AppResult<()>)
    ensures
        match r {
            Ok(_) => order@.len() > 0,
            Err(e) => order@.len() == 0 && e.code@ == "VALIDATION_ERROR"@ && e.message@
                == "Pack order cannot be empty"@,
        },
{
    if order.len() == 0 {
        return Err(AppError::validation("Pack order cannot be empty"));
    }
    Ok(())
}

/// One override entry is acceptable: a non-empty asset identifier, a non-empty
/// pack id, and the pack id present in the pack order.
pub open spec fn override_ok(entry: (String, String), pack_order: Seq<String>) -> bool {
    entry.0@.len() > 0 && entry.1@.len() > 0 && has_view(pack_order, entry.1@)
}

/// Validate that every override names a non-empty asset, a non-empty pack id,
/// and a pack present in the pack order.
pub fn validate_overrides(overrides: &Vec<(String, String)>, pack_order: &Vec<String>) -> (r:
    AppResult<()>)
    ensures
        match r {
            Ok(_) => forall|i: int|
                0 <= i < overrides@.len() ==> override_ok(#[trigger] overrides@[i], pack_order@),
            Err(e) => (exists|i: int|
                0 <= i < overrides@.len() && !override_ok(#[trigger] overrides@[i], pack_order@))
                && e.code@ == "VALIDATION_ERROR"@,
        },
{
    let mut i: usize = 0;
    while i < overrides.len()
        invariant
            i <= overrides@.len(),
            forall|j: int| 0 <= j < i ==> override_ok(#[trigger] overrides@[j], pack_order@),
        decreases overrides@.len() - i,
    {
        let asset_id = &overrides[i].0;
        let pack_id = &overrides[i].1;
        if asset_id.as_str().is_empty() {
            return Err(AppError::validation("Asset ID in overrides cannot be empty"));
        }
        if pack_id.as_str().is_empty() {
            let msg = concat2("Pack ID for asset ", asset_id.as_str()).concat(" cannot be empty");
            return Err(AppError::validation(msg.as_str()));
        }
        if !crate::asset_indexer::ids_contain(pack_order, pack_id.as_str()) {
            let msg = concat2("Override references non-existent pack: ", pack_id.as_str());
            return Err(AppError::validation(msg.as_str()));
        }
        i += 1;
    }
    Ok(())
}

/// Validate build request parameters: both directories, the pack order, and
/// the overrides, in that order.
pub fn validate_build_request(
    packs_dir: &str,
    packs_dir_exists: bool,
    packs_dir_is_dir: bool,
    pack_order: &Vec<String>,
    overrides: &Vec<(String, String)>,
    output_dir: &str,
    output_dir_exists: bool,
    output_dir_is_dir: bool,
) -> (r: AppResult<()>)
    ensures
        r is Ok <==> {
            &&& packs_dir@.len() > 0 && packs_dir_exists && packs_dir_is_dir
            &&& output_dir@.len() > 0 && output_dir_exists && output_dir_is_dir
            &&& pack_order@.len() > 0
            &&& forall|i: int|
                0 <= i < overrides@.len() ==> override_ok(#[trigger] overrides@[i], pack_order@)
        },
        r matches Err(e) ==> (e.code@ == "VALIDATION_ERROR"@ || e.code@ == "IO_ERROR"@),
{
    match validate_directory(packs_dir, "Packs directory", packs_dir_exists, packs_dir_is_dir) {
        Err(e) => Err(e),
        Ok(_) => {
            match validate_directory(
                output_dir,
                "Output directory",
                output_dir_exists,
                output_dir_is_dir,
            ) {
                Err(e) => Err(e),
                Ok(_) => {
                    match validate_pack_order(pack_order) {
                        Err(e) => Err(e),
                        Ok(_) => validate_overrides(overrides, pack_order),
                    }
                },
            }
        },
    }
}

} // verus!
