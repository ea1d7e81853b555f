//! The host's resources: the provider that registers them, the links under which the frontend
//! shows them, and the files they come from and go to.
pub mod error;
pub mod import_export;
pub mod preview;
pub mod provider;
pub mod store;
