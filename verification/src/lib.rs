//! Terminal Farms: a small idle farming game.
//!
//! The library holds the game's rules: the crop and machinery catalogs, the
//! farm state and every action on it, the save-record conversion, and the
//! input handling and the screen texts of the interactive front end.
pub mod data;
pub mod display;
pub mod duties;
pub mod game;
pub mod keyed;
pub mod laws;
pub mod layout;
pub mod price;
pub mod session;
pub mod storage;
pub mod text;

pub use data::{CropCatalog, CropDefinition, UpgradeCatalog, UpgradeDefinition, UpgradeKind};
pub use game::{ActionResult, GameState, TileState, UpgradeState};
