//! Engine-independent logic of a first-person courier game: the asset-loading
//! gate, mouse look, ray-hit targeting and the interaction state it drives,
//! the text shown for a targeted package, the static collider plan of a loaded
//! scene, the floor grid layout and cursor capture.
pub mod controller;
pub mod cursor;
pub mod gltf;
pub mod grid;
pub mod loader;
pub mod package_data;
pub mod raycasting;
