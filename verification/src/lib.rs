//! A three-rotor cipher machine: alphabet helpers, plugboard, rotors,
//! reflector and the engine that steps the rotors and routes each letter.

pub mod cli;
pub mod machine;
pub mod plugboard;
pub mod reflector;
pub mod rotor;
pub mod settings;
pub mod text;
pub mod utils;
pub mod wiring;
