//! Plugins and their runners: what is found on disk, what is launched, and what is listed of it.
pub mod launch;
pub mod manifest;
pub mod scan;
pub mod sorting;
pub mod walk;
