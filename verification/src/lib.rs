//! Resolves block-rendering assets across overlapping resource packs.
//!
//! The library indexes texture assets over an ordered list of packs, resolves
//! block models through their parent-inheritance chain (with a depth bound),
//! selects default models from blockstate definitions, and plans the versioned
//! baseline cache that serves as the universal fallback source. All functions
//! here are pure over plain values; reading archives, walking directories and
//! writing the cache are left to the surrounding application.

pub mod asset_indexer;
pub mod block_models;
pub mod blockstates;
pub mod error;
pub mod launcher_detection;
pub mod mc_paths;
pub mod text;
pub mod texture_to_block_map;
pub mod validation;
pub mod vanilla_textures;

pub use error::AppError;
pub use error::AppResult;
