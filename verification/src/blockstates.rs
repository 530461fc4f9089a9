//! Blockstate definitions and default-model selection.
//!
//! A blockstate maps a block's states to model references, either through a
//! variant table or through a list of multipart cases. The resolver here picks
//! one default reference by a fixed precedence: the empty-string variant key,
//! then the `"normal"` key, then the first variant, then (for multipart-only
//! definitions) the first case without a condition, then the first case.

use vstd::prelude::*;
use vstd::string::StrSliceExecFns;
use vstd::string::StringExecFns;

use crate::text::{ends_with, starts_with, str_ends_with, str_starts_with, str_eq, substring};

verus! {

/// Reference to a model, with optional transformations.
#[derive(Debug, Clone)]
pub struct ModelReference {
    /// Model path (e.g., `minecraft:block/dirt`).
    pub model: String,
    /// Rotation around the x axis (0, 90, 180, 270).
    pub x: Option<i32>,
    /// Rotation around the y axis (0, 90, 180, 270).
    pub y: Option<i32>,
    /// UV lock for rotations.
    pub uvlock: Option<bool>,
    /// Weight for random selection.
    pub weight: Option<i32>,
}

/// A variant is either a single model or a list of weighted options.
#[derive(Debug, Clone)]
pub enum BlockstateVariant {
    Single(ModelReference),
    Multiple(Vec<ModelReference>),
}

/// One multipart case: an optional condition and the model(s) it applies.
///
/// The condition is carried verbatim as its source text; selection only ever
/// asks whether a condition is present.
#[derive(Debug, Clone)]
pub struct MultipartCase {
    pub when: Option<String>,
    pub apply: BlockstateVariant,
}

/// A block's state definition: a variant table and/or a multipart case list.
///
/// The variant table keeps the order in which it was read.
#[derive(Debug, Clone)]
pub struct Blockstate {
    pub variants: Option<Vec<(String, BlockstateVariant)>>,
    pub multipart: Option<Vec<MultipartCase>>,
}

/// View of an optional owned string as an optional character sequence.
pub open spec fn opt_str_view(r: Option<String>) -> Option<Seq<char>> {
    match r {
        Some(s) => Some(s@),
        None => None,
    }
}

/// The first model reference a variant names, if any.
pub open spec fn spec_first_model(v: BlockstateVariant) -> Option<Seq<char>> {
    match v {
        BlockstateVariant::Single(m) => Some(m.model@),
        BlockstateVariant::Multiple(ms) => if ms@.len() > 0 {
            Some(ms@[0].model@)
        } else {
            None
        },
    }
}

/// The first variant stored under `key`, if any.
pub open spec fn lookup_variant(
    vars: Seq<(String, BlockstateVariant)>,
    key: Seq<char>,
) -> Option<BlockstateVariant>
    decreases vars.len(),
{
    if vars.len() == 0 {
        None
    } else if vars[0].0@ == key {
        Some(vars[0].1)
    } else {
        lookup_variant(vars.drop_first(), key)
    }
}

/// The first multipart case with no condition, if any.
pub open spec fn first_unconditional(cases: Seq<MultipartCase>) -> Option<MultipartCase>
    decreases cases.len(),
{
    if cases.len() == 0 {
        None
    } else if cases[0].when is None {
        Some(cases[0])
    } else {
        first_unconditional(cases.drop_first())
    }
}

/// Default model selection from the multipart case list alone.
pub open spec fn spec_multipart_default(mp: Option<Vec<MultipartCase>>) -> Option<Seq<char>> {
    match mp {
        Some(cases) => match first_unconditional(cases@) {
            Some(c) => spec_first_model(c.apply),
            None => if cases@.len() > 0 {
                spec_first_model(cases@[0].apply)
            } else {
                None
            },
        },
        None => None,
    }
}

/// Default model selection, by the documented precedence.
pub open spec fn spec_default_model(bs: Blockstate) -> Option<Seq<char>> {
    match bs.variants {
        Some(vars) => match lookup_variant(vars@, Seq::empty()) {
            Some(v) => spec_first_model(v),
            None => match lookup_variant(vars@, "normal"@) {
                Some(v) => spec_first_model(v),
                None => if vars@.len() > 0 {
                    spec_first_model(vars@[0].1)
                } else {
                    spec_multipart_default(bs.multipart)
                },
            },
        },
        None => spec_multipart_default(bs.multipart),
    }
}

/// Extract the first model reference from a variant.
pub fn extract_first_model(variant: &BlockstateVariant) -> (r: Option<String>)
    ensures
        opt_str_view(r) == spec_first_model(*variant),
{
    match variant {
        BlockstateVariant::Single(m) => Some(m.model.clone()),
        BlockstateVariant::Multiple(ms) => {
            if ms.len() > 0 {
                Some(ms[0].model.clone())
            } else {
                None
            }
        },
    }
}

/// Find the first variant stored under `key`.
fn find_variant<'a>(vars: &'a Vec<(String, BlockstateVariant)>, key: &str) -> (r: Option<
    &'a BlockstateVariant,
>)
    ensures
        match r {
            Some(v) => lookup_variant(vars@, key@) == Some(*v),
            None => lookup_variant(vars@, key@) is None,
        },
{
    proof {
        assert(vars@.skip(0) =~= vars@);
    }
    let mut i: usize = 0;
    while i < vars.len()
        invariant
            i <= vars.len(),
            lookup_variant(vars@, key@) == lookup_variant(vars@.skip(i as int), key@),
        decreases vars.len() - i,
    {
        proof {
            assert(vars@.skip(i as int)[0] == vars@[i as int]);
            assert(vars@.skip(i as int).drop_first() =~= vars@.skip(i as int + 1));
        }
        if str_eq(vars[i].0.as_str(), key) {
            return Some(&vars[i].1);
        }
        i += 1;
    }
    None
}

/// Find the first multipart case with no condition.
fn find_unconditional<'a>(cases: &'a Vec<MultipartCase>) -> (r: Option<&'a MultipartCase>)
    ensures
        match r {
            Some(c) => first_unconditional(cases@) == Some(*c),
            None => first_unconditional(cases@) is None,
        },
{
    proof {
        assert(cases@.skip(0) =~= cases@);
    }
    let mut i: usize = 0;
    while i < cases.len()
        invariant
            i <= cases.len(),
            first_unconditional(cases@) == first_unconditional(cases@.skip(i as int)),
        decreases cases.len() - i,
    {
        proof {
            assert(cases@.skip(i as int)[0] == cases@[i as int]);
            assert(cases@.skip(i as int).drop_first() =~= cases@.skip(i as int + 1));
        }
        if cases[i].when.is_none() {
            return Some(&cases[i]);
        }
        i += 1;
    }
    None
}

/// Default model selection from the multipart case list alone.
fn multipart_default(mp: &Option<Vec<MultipartCase>>) -> (r: Option<String>)
    ensures
        opt_str_view(r) == spec_multipart_default(*mp),
{
    match mp {
        Some(cases) => {
            match find_unconditional(cases) {
                Some(c) => extract_first_model(&c.apply),
                None => {
                    if cases.len() > 0 {
                        extract_first_model(&cases[0].apply)
                    } else {
                        None
                    }
                },
            }
        },
        None => None,
    }
}

/// Get the default model for a block.
///
/// Most blocks have a default state under the empty-string variant key; the
/// `"normal"` key is the older equivalent. For multipart blocks the first
/// unconditional case wins, then the first case regardless of condition.
/// Returns `None` when no reference can be determined.
pub fn get_default_model(blockstate: &Blockstate) -> (r: Option<String>)
    ensures
        opt_str_view(r) == spec_default_model(*blockstate),
{
    proof {
        reveal_strlit("");
        assert(""@ =~= Seq::<char>::empty());
    }
    match &blockstate.variants {
        Some(vars) => {
            match find_variant(vars, "") {
                Some(v) => extract_first_model(v),
                None => {
                    match find_variant(vars, "normal") {
                        Some(v) => extract_first_model(v),
                        None => {
                            if vars.len() > 0 {
                                extract_first_model(&vars[0].1)
                            } else {
                                multipart_default(&blockstate.multipart)
                            }
                        },
                    }
                },
            }
        },
        None => multipart_default(&blockstate.multipart),
    }
}

/// The suffixes that name a texture part or stage of one block rather than a
/// block of its own, tried in this order.
pub open spec fn texture_suffixes() -> Seq<Seq<char>> {
    seq![
        "_top"@, "_bottom"@, "_side"@, "_front"@, "_back"@, "_end"@, "_north"@, "_south"@,
        "_east"@, "_west"@, "_up"@, "_down"@, "_inner"@, "_outer"@, "_upper"@, "_lower"@,
        "_0"@, "_1"@, "_2"@, "_3"@, "_4"@, "_5"@,
    ]
}

/// Remove the first suffix from `sufs` that `s` ends with, if any.
pub open spec fn strip_suffix_list(s: Seq<char>, sufs: Seq<Seq<char>>) -> Seq<char>
    decreases sufs.len(),
{
    if sufs.len() == 0 {
        s
    } else if ends_with(s, sufs[0]) {
        s.take(s.len() - sufs[0].len())
    } else {
        strip_suffix_list(s, sufs.drop_first())
    }
}

/// Whether `c` is one of the decimal digits.
pub open spec fn spec_is_digit(c: char) -> bool {
    48 <= c as u32 <= 57
}

/// `s` without its trailing decimal digits.
pub open spec fn trim_trailing_digits(s: Seq<char>) -> Seq<char>
    decreases s.len(),
{
    if s.len() > 0 && spec_is_digit(s.last()) {
        trim_trailing_digits(s.drop_last())
    } else {
        s
    }
}

/// The block a texture identifier belongs to, if it is a block texture:
/// the `block/` path with part suffixes and stage digits stripped.
pub open spec fn spec_texture_id_to_block_id(id: Seq<char>) -> Option<Seq<char>> {
    let wo = if starts_with(id, "minecraft:"@) {
        id.skip("minecraft:"@.len() as int)
    } else {
        id
    };
    if starts_with(wo, "block/"@) {
        Some(
            trim_trailing_digits(
                strip_suffix_list(wo.skip("block/"@.len() as int), texture_suffixes()),
            ),
        )
    } else {
        None
    }
}

/// Remove the first texture-part suffix that `s` ends with, if any.
fn strip_texture_suffix(s: &str) -> (r: String)
    ensures
        r@ == strip_suffix_list(s@, texture_suffixes()),
{
    let sufs: Vec<&str> = vec![
        "_top", "_bottom", "_side", "_front", "_back", "_end", "_north", "_south", "_east",
        "_west", "_up", "_down", "_inner", "_outer", "_upper", "_lower", "_0", "_1", "_2", "_3",
        "_4", "_5",
    ];
    proof {
        assert forall|k: int| 0 <= k < 22 implies sufs@[k]@ == texture_suffixes()[k] by {}
    }
    proof {
        assert(texture_suffixes().skip(0) =~= texture_suffixes());
    }
    let sn: usize = s.unicode_len();
    let mut i: usize = 0;
    while i < sufs.len()
        invariant
            i <= sufs.len(),
            sufs@.len() == 22,
            texture_suffixes().len() == 22,
            sn == s@.len(),
            forall|k: int| 0 <= k < 22 ==> sufs@[k]@ == texture_suffixes()[k],
            strip_suffix_list(s@, texture_suffixes()) == strip_suffix_list(
                s@,
                texture_suffixes().skip(i as int),
            ),
        decreases sufs.len() - i,
    {
        proof {
            assert(texture_suffixes().skip(i as int)[0] == texture_suffixes()[i as int]);
            assert(texture_suffixes().skip(i as int).drop_first() =~= texture_suffixes().skip(
                i as int + 1,
            ));
        }
        let suf = sufs[i];
        if str_ends_with(s, suf) {
            let pl: usize = suf.unicode_len();
            return substring(s, 0, sn - pl);
        }
        i += 1;
    }
    String::from_str(s)
}

/// `s` without its trailing decimal digits.
fn trim_digits(s: &str) -> (r: String)
    ensures
        r@ == trim_trailing_digits(s@),
{
    let sn: usize = s.unicode_len();
    proof {
        assert(s@.take(sn as int) =~= s@);
    }
    let mut i: usize = sn;
    while i > 0
        invariant
            i <= sn,
            sn == s@.len(),
            trim_trailing_digits(s@) == trim_trailing_digits(s@.take(i as int)),
        decreases i,
    {
        let c = s.get_char(i - 1);
        let cv: u32 = c as u32;
        if cv < 48 || cv > 57 {
            proof {
                assert(s@.take(i as int).len() > 0);
                assert(!spec_is_digit(s@.take(i as int).last()));
            }
            return substring(s, 0, i);
        }
        proof {
            assert(s@.take(i as int).last() == s@[i - 1]);
            assert(s@.take(i as int).drop_last() =~= s@.take(i as int - 1));
        }
        i -= 1;
    }
    proof {
        assert(s@.take(0) =~= Seq::<char>::empty());
    }
    String::new()
}

/// Convert a texture identifier to the blockstate block identifier it belongs
/// to, or `None` when the texture is not a block texture.
///
/// Part suffixes (`_top`, `_side`, ...) and trailing stage digits name texture
/// variants of one block, so they are stripped.
pub fn texture_id_to_block_id(texture_id: &str) -> (r: Option<String>)
    ensures
        opt_str_view(r) == spec_texture_id_to_block_id(texture_id@),
{
    let sn: usize = texture_id.unicode_len();
    let without_ns: String = if str_starts_with(texture_id, "minecraft:") {
        let pl: usize = "minecraft:".unicode_len();
        let r = substring(texture_id, pl, sn);
        proof {
            assert(texture_id@.skip(pl as int) =~= texture_id@.subrange(pl as int, sn as int));
        }
        r
    } else {
        String::from_str(texture_id)
    };
    if str_starts_with(without_ns.as_str(), "block/") {
        let bl: usize = "block/".unicode_len();
        let bn: usize = without_ns.as_str().unicode_len();
        let bp = substring(without_ns.as_str(), bl, bn);
        proof {
            assert(without_ns@.skip(bl as int) =~= without_ns@.subrange(bl as int, bn as int));
        }
        let stripped = strip_texture_suffix(bp.as_str());
        Some(trim_digits(stripped.as_str()))
    } else {
        None
    }
}

/// Relative path of a block's state definition inside a pack.
pub fn blockstate_asset_path(block_id: &str) -> (r: String)
    ensures
        r@ == "assets/minecraft/blockstates/"@ + block_id@ + ".json"@,
{
    crate::text::concat3("assets/minecraft/blockstates/", block_id, ".json")
}

} // verus!
