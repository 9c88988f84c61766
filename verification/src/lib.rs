//! A fact-driven rule and story-progression engine.
//!
//! Facts are named, typed values in a store that records what changed. Rules
//! are conjunctions of conditions over the facts. A story is a sequence of
//! beats, each guarded by rules and carrying effects that are written back to
//! the store once the beat has finished. Stories can be written down as text.
//!
//! # What is proved and what is not
//!
//! Every function states what it returns, and the verifier proves it. The
//! exceptions are the functions that call into `hashbrown`, whose tables hold
//! the facts, the rules and the string sets, and two that call into `std` to
//! sort and to hash strings. Each of them is a few lines long, private, and
//! says in its comment which function it calls and what it takes from that
//! function's documentation. They are in [`string_set`], [`fact`] and
//! [`rule_engine`]. What holds of the engine as a whole is stated and proved
//! in [`laws`].

pub mod string_set;
pub mod fact;
pub mod store;
pub mod condition;
pub mod rule_engine;
pub mod effect;
pub mod story;
pub mod text;
pub mod parsing;
pub mod pass;
pub mod laws;
