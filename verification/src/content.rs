//! Game content: what exists in the world, as described by data files.
//!
//! Content is checked thoroughly when it is loaded, so a mistake in a data
//! file stops the game at startup with an error that names the file and the
//! problem, instead of surfacing later during play.

pub mod material;
pub mod number;
pub mod lookup;
pub mod paths;
pub mod error;
pub mod item;
pub mod dig;
pub mod crop;
pub mod people;
pub mod shop;
pub mod scenery;
pub mod palette;
pub mod structure;
pub mod village;
pub mod message;
pub mod catalog;
pub mod loading;
pub mod laws;
