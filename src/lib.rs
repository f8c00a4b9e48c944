pub mod controller;
pub mod geometry;
pub mod laws;
pub mod state;
