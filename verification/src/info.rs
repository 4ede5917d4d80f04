//! Information about the library's capabilities and surroundings: version,
//! supported formats, features, and the system it runs on.

pub mod features;
pub mod formats;
pub mod formatter;
pub mod models;
pub mod system;
pub mod version;
