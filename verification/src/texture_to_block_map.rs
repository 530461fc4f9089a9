//! Reverse lookup from texture paths to the blocks that use them.
//!
//! The operation is declared, but its intended derivation (blockstate to
//! model to texture-variable chain to reverse lookup) is not implemented:
//! no texture references are extracted from a blockstate yet, so the map is
//! always empty, and call sites fall back to the direct suffix-stripping
//! heuristic of `texture_id_to_block_id`.

use vstd::prelude::*;

use crate::blockstates::Blockstate;

verus! {

/// Extract the texture references a blockstate leads to.
///
/// Not derived yet: every blockstate yields no references, and callers fall
/// back to the suffix-stripping heuristic.
pub fn extract_textures_from_blockstate(blockstate: &Blockstate) -> (r: Vec<String>)
    ensures
        r@.len() == 0,
{
    Vec::new()
}

/// Build the texture-to-block reverse map from named blockstates.
///
/// Since no texture references are extracted yet, the map is empty whatever
/// the input.
pub fn build_texture_to_block_map(blockstates: &Vec<(String, Blockstate)>) -> (r: Vec<
    (String, Vec<String>),
>)
    ensures
        r@.len() == 0,
{
    let mut map: Vec<(String, Vec<String>)> = Vec::new();
    let mut i: usize = 0;
    while i < blockstates.len()
        invariant
            map@.len() == 0,
        decreases blockstates@.len() - i,
    {
        let textures = extract_textures_from_blockstate(&blockstates[i].1);
        let mut j: usize = 0;
        while j < textures.len()
            invariant
                map@.len() == 0,
                textures@.len() == 0,
            decreases textures@.len() - j,
        {
            j += 1;
        }
        i += 1;
    }
    map
}

} // verus!
