//! Latin hypercube sampling over named parameters.
//!
//! Each parameter's unit interval is cut into as many equal strata as there
//! are samples; every stratum of every parameter is used by exactly one
//! sample, with the strata of different parameters paired at random and each
//! sample placed at a random offset inside its stratum.
pub mod csv;
pub mod design;
pub mod random;
pub mod space;
pub mod strata;
