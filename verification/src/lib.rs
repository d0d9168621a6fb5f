//! Core of an interactively zoomable fractal viewer, with the widget state
//! machines of the toolkit around it.
//!
//! The viewer covers the fractal plane with square tiles. `grid` holds the
//! integer grid that a generation pass lays over the plane, `spiral` the walk
//! that picks the tiles of a pass nearest first, `tile` and `cache` the tiles
//! and their three pools, `bail` and `worker` what a worker does with a tile,
//! `pixel` the packed cell of a pixel, and `controller` the steps of a tick.
//! All of them work on integers: the geometry in double precision stays with
//! the caller, who hands over grid windows and the outcome of comparisons.
//!
//! `label`, `stack_navigation`, `run_view`, `child_process` and
//! `android_keycodes` hold the state and the decisions of widgets and of the
//! platform layer, free of any drawing.

pub mod grid;
pub mod spiral;
pub mod tile;
pub mod cache;
pub mod bail;
pub mod pixel;
pub mod worker;
pub mod controller;
pub mod label;
pub mod android_keycodes;
pub mod child_process;
pub mod stack_navigation;
pub mod run_view;
