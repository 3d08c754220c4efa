//! Verified building blocks: a worker pool that crawls pages, a card-number
//! check, route prefix matching, text helpers, text widgets and a few small
//! computations, each stated over a mathematical model and proved.

pub mod crawler;
pub mod luhn;
pub mod matrix;
pub mod philosophers;
pub mod routing;
pub mod text;
pub mod widgets;
