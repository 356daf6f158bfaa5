//! Game rules of an isometric action roguelite: meta-progression upgrades,
//! leveling, save bookkeeping, character profiles, zones and enemy spawn
//! planning, and software-drawn UI textures.

pub mod animation;
pub mod hud;
pub mod leveling;
pub mod map;
pub mod meta;
pub mod models;
pub mod pipeline;
pub mod profiles;
pub mod save;
pub mod search;
pub mod server;
pub mod state;
pub mod strmap;
pub mod text;
pub mod texture;
pub mod upgrade_tree;
pub mod upgrades;
pub mod zone;
