// A 2D particle simulation step: gravity, short-range pairwise repulsion and
// damped wall collisions, on fixed-point values (see `fixed::SCALE`).
pub mod fixed;
pub mod particle;
pub mod step;
pub mod laws;
