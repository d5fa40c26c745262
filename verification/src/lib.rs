//! Constrained autoregressive decoding controller.
//!
//! At each step of language-model token generation this library combines
//! raw model scores with a repetition-penalty adjustment and an optional
//! token-level finite-state constraint, delegates the draw to a sampler,
//! and decides when generation must stop.

pub mod automaton;
pub mod engine;
pub mod scores;
pub mod text_generation;
