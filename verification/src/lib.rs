//! Catalog builder for a local media collection: path identity, tag
//! normalisation, directory classification and the artist/album hierarchy.

pub mod catalog;
pub mod collection;
pub mod duration;
pub mod hierarchy;
pub mod lookup;
pub mod media;
pub mod path;
pub mod rows;
pub mod scan;
pub mod snapshot;
pub mod tag;
pub mod text;
pub mod track;
pub mod utils;
pub mod watch;
