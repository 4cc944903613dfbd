//! Symmetric synchronisation of a directory tree between machines over an
//! untrusted blob store: the crypto envelope, the image (the manifest of the
//! synchronised files) and the reconciliation engine that decides, file by
//! file, what to push, pull, delete or flag.

pub mod error;
pub mod envelope;
pub mod config;
pub mod image;
pub mod engine;

pub use config::{Config, Goal};
pub use engine::{Action, Jambon, Plan};
pub use error::SyncError;
pub use image::{Image, Metadata};
