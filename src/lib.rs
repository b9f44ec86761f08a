//! An emulator of the three-rotor Enigma cipher machine: rotors with ring
//! settings and notches, a fixed reflector and a plugboard, composed into a
//! self-inverse cipher over the letters A to Z.
pub mod alphabet;
pub mod wiring;
pub mod rotor;
pub mod plugboard;
pub mod machine;
pub mod proofs;

pub use machine::{ConfigError, EnigmaMachine};
pub use plugboard::Plugboard;
