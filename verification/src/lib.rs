//! Embeddable script-execution core: an execution-context state machine with a
//! single-slot result channel, a dual-mode (fire-and-run / drain-and-await)
//! evaluation protocol, and a codec between host values and the textual
//! interchange form exchanged with the guest engine.
#![allow(unused_imports)]

pub mod codec;
pub mod context;
pub mod errors;
pub mod facade;
pub mod host;
pub mod parse;
pub mod value;
