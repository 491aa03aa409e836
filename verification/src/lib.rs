//! Gadget construction and witness synthesis for a PLONK-style
//! arithmetization over the Pasta curves, together with the test-driver
//! builder that pads witnesses to the proving domain, repairs copy
//! constraints, and assembles the inputs of a prove/verify round trip.

pub mod bitwise;
pub mod decode;
pub mod drivers;
pub mod fe;
pub mod framework;
pub mod gadgets;
pub mod gate;
pub mod rng;
pub mod witness;
