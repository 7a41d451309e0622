//! Identifies the format of a file from the first bytes of its content and
//! the extension that its name claims.

pub mod catalog;
pub mod classifier;
pub mod extension;
pub mod formats;
pub mod laws;
pub mod markers;

pub use classifier::Tyfe;
pub use formats::Tyfes;
pub use markers::Markers;
