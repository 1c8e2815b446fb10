//! What to wear for a run, decided from the weather.
//!
//! The crate turns a weather observation and a runner's preferences into the
//! query vocabulary of a clothing-recommendation page, extracts the
//! recommended items from that page, orders the pictures from head to feet
//! and renders them as inline-image escape sequences for a terminal.

pub mod apixu_weather;
pub mod cli;
pub mod dom;
pub mod image;
pub mod page;
pub mod runners_world;
pub mod terminal;
pub mod text;
pub mod unique;
