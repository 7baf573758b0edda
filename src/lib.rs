//! Integer core of a Monte Carlo ray tracer: the plain-text image encoding,
//! the pixel scan order and the bounce-budget decisions of the colour
//! integrator. The floating-point geometry, materials and camera drive these
//! from outside.
pub mod integrator;
pub mod ppm;
pub mod scan;
