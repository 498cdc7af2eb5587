//! Isometric tile-map geometry for a 2D map editor.
//!
//! The library covers the coordinate transforms between map space (grid
//! units) and world space (the render plane), the elevation-aware tile
//! picking that resolves a world-space point to the grid cell visually under
//! it, the render depth-order function, the camera bounds clamp, and the
//! terrain catalog / map grid data model those operate on.
//!
//! All coordinates are fixed-point: an `i64` counts sub-units of
//! `1 / COORD_ONE` of a map or world unit.  Every transform the design
//! needs (diamond projection, elevation offsets, halved nudges) is exact
//! at this resolution, so the geometry is verified as plain integer
//! arithmetic.

pub mod camera;
pub mod coords;
pub mod depth;
pub mod editor;
pub mod error;
pub mod mapdata;
pub mod picking;
pub mod terrain;
pub mod tile;
