//! Media files: probing, audio conversion, images, remuxing.

pub mod audio;
pub mod image;
pub mod names;
pub mod probe;
pub mod reading;
pub mod remux;
pub mod report;
pub mod tag_text;
pub mod tiles;
pub mod wav;
