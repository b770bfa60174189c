//! A semi-structured value model (JSON/YAML-like), a lazily loaded
//! configuration cache over it, and a registry of named configurations
//! layered by environment.
pub mod configuration;
pub mod error;
pub mod factory;
pub mod index;
pub mod number;
pub mod text;
pub mod value;

pub use configuration::{Configuration, Extension, Format, Outcome};
pub use error::{Error, ErrorKind};
pub use factory::{Factory, Listing, ScannedFile};
pub use index::Index;
pub use number::Number;
pub use value::{Object, Value};

