//! Profile, proxy and launch logic of a local Chromium profile manager.

pub mod external;
pub mod text;
pub mod normalize;
pub mod color;
pub mod http;
pub mod socks5;
pub mod launch;
pub mod records;
pub mod browser;
pub mod processes;
pub mod relay;
pub mod profiles;
pub mod sessions;
pub mod migrations;
pub mod keychain;
pub mod install;
pub mod preferences;
