//! The verified core of a small real-time rendering engine: terrain
//! topology, the HUD entity model with its UV states, depth-ordered HUD
//! compositing and the name-keyed registries that hold the scene.

pub mod entity;
pub mod hud;
pub mod key_registry;
pub mod names;
pub mod registry;
pub mod single;
pub mod spatial;
pub mod terrain;
pub mod text;
pub mod texture;
pub mod utils;

pub use key_registry::KeyRegistry;
pub use registry::EntityRegistry;
pub use utils::RgbaColor;
