//! A bounded pool of workers that visits a fixed list of pages.

pub mod model;
pub mod links;
pub mod visit;
pub mod source;
pub mod pool;
pub mod run;
pub mod laws;
