//! What the rest of the crate leans on: text, tables, the clock and chance.

pub mod clock;
pub mod maps;
pub mod ordered;
pub mod random;
pub mod sorting;
pub mod text;
