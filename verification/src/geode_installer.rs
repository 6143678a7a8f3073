//! Where the loader is installed: the game's directory and its prefix,
//! found through Steam or named by the user.

use vstd::prelude::*;
use crate::disk::Disk;
use crate::error::InstallError;
use crate::path::{join, joined};
use crate::registry::{ensure_dll_override, marker, patched, registry_file};
use crate::steam_game_finder::{
    found_game, found_prefix, lemma_found_game_exists, lemma_found_prefix_exists, SteamGameFinder,
};
use crate::text::contains;

verus! {

/// The Steam application number of Geometry Dash.
pub const GD_APP_ID: &'static str = "322170";

/// The two directories of an installation: the game's own, into which the
/// loader is unpacked, and the prefix whose registry is patched.
#[derive(Debug)]
pub struct InstallationPaths {
    pub game_path: String,
    pub proton_prefix: String,
}

/// The installer: it knows the Steam installation that was found.
pub struct GeodeInstaller {
    finder: SteamGameFinder,
}

/// Where Geometry Dash and its prefix are, by the library folders
/// `libraries`: the game's install directory and the prefix, looked for in
/// the game's library first. That the game is not found, or that it has no
/// prefix, is a failure here.
pub open spec fn located(disk: Disk, libraries: Seq<Seq<char>>) -> Result<
    (Seq<char>, Seq<char>),
    InstallError,
> {
    match found_game(disk, libraries, GD_APP_ID@) {
        None => Err(InstallError::GameNotFound),
        Some((game_path, library)) => match found_prefix(
            disk,
            libraries,
            GD_APP_ID@,
            Some(library),
        ) {
            None => Err(InstallError::PrefixNotFound),
            Some(prefix) => Ok((game_path, prefix)),
        },
    }
}

/// Whether `result` stands for `wanted`: the same failure, or the same
/// two paths.
pub open spec fn gives(
    result: Result<InstallationPaths, InstallError>,
    wanted: Result<(Seq<char>, Seq<char>), InstallError>,
) -> bool {
    match result {
        Ok(paths) => wanted == Ok::<_, InstallError>((paths.game_path@, paths.proton_prefix@)),
        Err(error) => wanted is Err && error == wanted->Err_0,
    }
}

/// Whether `result` is what the check of the two directories comes to: a
/// missing prefix directory is reported first, then a missing game
/// directory.
pub open spec fn validated(
    disk: Disk,
    prefix: Seq<char>,
    game_dir: Seq<char>,
    result: Result<(), InstallError>,
) -> bool {
    if !disk.has(prefix) {
        result matches Err(InstallError::MissingPrefixDir(path)) && path@ == prefix
    } else if !disk.has(game_dir) {
        result matches Err(InstallError::MissingGameDir(path)) && path@ == game_dir
    } else {
        result is Ok
    }
}

impl GeodeInstaller {
    /// The Steam installation that the installer knows.
    pub closed spec fn finder(&self) -> SteamGameFinder {
        self.finder
    }

    /// An installer for the Steam installation that is found on `disk`,
    /// for the user who runs the program.
    pub fn new(disk: &Disk) -> (installer: Self)
        ensures
            exists|home: Option<Seq<char>>| installer.finder().found_on(*disk, home),
    {
        let finder = SteamGameFinder::new(disk);
        let installer = GeodeInstaller { finder };
        proof {
            let home = choose|home: Option<Seq<char>>| finder.found_on(*disk, home);
            assert(installer.finder().found_on(*disk, home));
        }
        installer
    }

    /// An installer for the Steam installation that `finder` found.
    pub fn with_finder(finder: SteamGameFinder) -> (installer: Self)
        ensures
            installer.finder() == finder,
    {
        GeodeInstaller { finder }
    }

    /// The Steam installation that the installer knows, if there is one.
    pub fn steam_root(&self) -> (root: Option<&String>)
        ensures
            match root {
                Some(r) => self.finder().root() == Some(r@),
                None => self.finder().root() is None,
            },
    {
        self.finder.steam_root()
    }

    /// The directories for an installation into Steam's Geometry Dash.
    /// Without Steam there is none; else they are the game's directory and
    /// its prefix, which both exist.
    pub fn install_to_steam(&self, disk: &Disk) -> (result: Result<
        InstallationPaths,
        InstallError,
    >)
        ensures
            self.finder().root() is None ==> result == Err::<InstallationPaths, _>(
                InstallError::SteamNotFound,
            ),
            self.finder().root() is Some ==> gives(
                result,
                located(*disk, self.finder().folders()),
            ),
            result matches Ok(paths) ==> disk.has(paths.game_path@) && disk.has(
                paths.proton_prefix@,
            ),
    {
        if self.steam_root().is_none() {
            return Err(InstallError::SteamNotFound);
        }
        let paths = match self.locate_geometry_dash(disk) {
            Ok(paths) => paths,
            Err(error) => {
                return Err(error);
            },
        };
        proof {
            let libraries = self.finder().folders();
            lemma_found_game_exists(*disk, libraries, GD_APP_ID@);
            let library = found_game(*disk, libraries, GD_APP_ID@).unwrap().1;
            lemma_found_prefix_exists(*disk, libraries, GD_APP_ID@, Some(library));
        }
        self.install_to_wine(disk, paths.proton_prefix.as_str(), paths.game_path.as_str())
    }

    /// The directories for an installation into the prefix `prefix` and
    /// the game directory `game_dir`: the two as they were given, if both
    /// exist.
    pub fn install_to_wine(&self, disk: &Disk, prefix: &str, game_dir: &str) -> (result: Result<
        InstallationPaths,
        InstallError,
    >)
        ensures
            match result {
                Ok(paths) => {
                    &&& disk.has(prefix@)
                    &&& disk.has(game_dir@)
                    &&& paths.proton_prefix@ == prefix@
                    &&& paths.game_path@ == game_dir@
                },
                Err(error) => validated(*disk, prefix@, game_dir@, Err(error)),
            },
    {
        match Self::validate_paths(disk, prefix, game_dir) {
            Ok(()) => Ok(
                InstallationPaths { game_path: game_dir.to_owned(), proton_prefix: prefix.to_owned() },
            ),
            Err(error) => Err(error),
        }
    }

    /// Where Geometry Dash and its prefix are.
    pub fn locate_geometry_dash(&self, disk: &Disk) -> (result: Result<
        InstallationPaths,
        InstallError,
    >)
        ensures
            gives(result, located(*disk, self.finder().folders())),
    {
        let game_info = match self.finder.get_game_info(disk, GD_APP_ID) {
            Some(info) => info,
            None => {
                return Err(InstallError::GameNotFound);
            },
        };
        match game_info.proton_prefix {
            Some(proton_prefix) => Ok(
                InstallationPaths { game_path: game_info.game_path, proton_prefix },
            ),
            None => Err(InstallError::PrefixNotFound),
        }
    }

    /// Checks that the two directories exist.
    pub fn validate_paths(disk: &Disk, prefix: &str, game_dir: &str) -> (result: Result<
        (),
        InstallError,
    >)
        ensures
            validated(*disk, prefix@, game_dir@, result),
    {
        if !disk.is_present(prefix) {
            return Err(InstallError::MissingPrefixDir(prefix.to_owned()));
        }
        if !disk.is_present(game_dir) {
            return Err(InstallError::MissingGameDir(game_dir.to_owned()));
        }
        Ok(())
    }

    /// The file into which the archive is downloaded before it is
    /// unpacked into `destination`.
    pub fn temp_archive(destination: &str) -> (file: String)
        ensures
            file@ == joined(destination@, "geode_temp.zip"@),
    {
        join(destination, "geode_temp.zip")
    }

    /// The registry file of the prefix at `prefix` and its new text, with
    /// the override ensured. A prefix without a registry file is a failure,
    /// and so is a registry file that cannot be read.
    pub fn patch_wine_registry(disk: &Disk, prefix: &str) -> (result: Result<
        (String, String),
        InstallError,
    >)
        ensures
            ({
                let file = joined(prefix@, "user.reg"@);
                if !disk.has(file) {
                    result matches Err(InstallError::MissingRegistry(path)) && path@ == file
                } else {
                    match disk.text(file) {
                        None => result matches Err(InstallError::UnreadableRegistry(path)) && path@
                            == file,
                        Some(text) => {
                            &&& result matches Ok((path, content))
                            &&& path@ == file
                            &&& contains(content@, marker())
                            &&& (contains(text, marker()) ==> content@ == text)
                            &&& exists|timestamp: u64| content@ == patched(text, timestamp)
                        },
                    }
                }
            }),
    {
        let user_reg = registry_file(prefix);
        if !disk.is_present(user_reg.as_str()) {
            return Err(InstallError::MissingRegistry(user_reg));
        }
        let mut content = match disk.read_to_string(user_reg.as_str()) {
            Some(content) => content,
            None => {
                return Err(InstallError::UnreadableRegistry(user_reg));
            },
        };
        ensure_dll_override(&mut content);
        Ok((user_reg, content))
    }
}

} // verus!
