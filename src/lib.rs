pub mod error;
pub mod vdf;
pub mod number;
pub mod paths;
pub mod model;
pub mod catalog;
pub mod resolve;
pub mod extension;

pub use error::ExtensionError;
pub use extension::{ExtensionManifest, ExtensionType, Hook, SteamExtension};
pub use model::{SteamApp, SteamGame, SteamLibrary};
pub use paths::Platform;
