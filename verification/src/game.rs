pub mod world;
pub mod skylight;
pub mod tall_world;
pub mod inventory;
pub mod block_style;
pub mod hud;
pub mod terrain_params;
pub mod prefab;
pub mod asset_registry;
pub mod actor;
pub mod interact;
pub mod terrain_recipe;
