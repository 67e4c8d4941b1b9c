//! What the linked media libraries can do.

pub mod capabilities;
