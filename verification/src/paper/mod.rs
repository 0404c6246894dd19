//! Types and request logic for the Paper API.

pub mod build_number;
pub mod channel;
pub mod client;
pub mod model;
pub mod project;
pub mod version;
pub mod version_order;

pub use channel::Channel;
pub use client::PaperClient;
pub use project::Project;
pub use build_number::{Build, InvalidBuildError};
pub use version::{InvalidVersionError, Release, Version};
