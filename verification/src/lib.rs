//! Library for driving a remotely controlled grid-world agent ("turtle"):
//! integer vector and yaw-rotation algebra, dead-reckoning location
//! estimation with GPS calibration, a sparse world-occupancy map with a
//! text-grid persistence format, and a real-time heuristic pathfinder.

pub mod vec3;
pub mod text;
pub mod turtle_rotation;
pub mod turtle_action;
pub mod error;
pub mod location_state;
pub mod cell_grid;
pub mod turtle_state;
pub mod pathfind;
pub mod turtle_program;
pub mod run_history;
pub mod turtle;
pub mod state_file;
pub mod go;
pub mod turn;
pub mod dig;
pub mod detect;
pub mod inspect;
pub mod place;
pub mod compare;
pub mod attack;
pub mod suck;
pub mod drop;
pub mod inventory;
pub mod gps;
