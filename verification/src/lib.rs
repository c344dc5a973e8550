//! An asset-loading and caching library for real-time graphics programs.
//!
//! Image, texture and sound handles live in three independent name-keyed
//! caches owned by an [`manager::AssetManager`]. Names derive from file
//! base names; batches of load outcomes merge into the caches with
//! last-writer-wins overwriting, and per-file failures are isolated into
//! diagnostics instead of aborting a batch.

pub mod assets;
pub mod batch;
pub mod manager;
pub mod name;

pub use assets::Image;
pub use assets::Texture;
pub use assets::upload_image;
pub use batch::LoadOutcome;
pub use manager::AssetError;
pub use manager::AssetManager;
pub use name::derive_asset_name;
pub use name::stem_of;
