//! Locates a game installed through Steam, resolves its Proton prefix, and
//! plans the installation of the Geode loader into it.
//!
//! Every decision of the installer lives here and is verified; reading the
//! disk, talking to the network and writing files are left to the caller,
//! who hands the library what it observed.

pub mod archive;
pub mod disk;
pub mod download;
pub mod error;
pub mod geode_installer;
pub mod path;
pub mod registry;
pub mod release;
pub mod steam_game_finder;
pub mod text;
pub mod vdf;
