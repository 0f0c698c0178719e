//! A 2D-grid ray-casting renderer core.
//!
//! Given a viewer pose (position, facing direction, camera plane) and a
//! square occupancy grid, the library casts one ray per screen column,
//! finds the first occupied cell each ray hits, and derives a vertical
//! wall segment and a shade for that column. All geometry is carried in
//! fixed-point integer arithmetic so that every step of the pipeline
//! has an exact, machine-checked contract: the host feeds the viewer
//! plain fixed-point values (elapsed time, a rotation's cosine and
//! sine) and receives plain segments to draw.

pub mod fixed;
pub mod geom;
pub mod grid;
pub mod project;
pub mod raycast;
pub mod viewer;

pub use fixed::SCALE;
pub use geom::Vec2Fx;
pub use grid::GRID_N;
pub use grid::Grid;
pub use grid::GridError;
pub use project::ColumnSegment;
pub use project::SCREEN_H_MAX;
pub use raycast::Hit;
pub use raycast::SCREEN_W_MAX;
pub use viewer::Viewer;
