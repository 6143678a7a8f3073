//! Finding Steam, its library folders, a game's install directory and its
//! Proton prefix.
//!
//! Every search is an ordered one: candidates are tried in a fixed order
//! and the first that fits is taken. That a thing is not found is an
//! ordinary answer, `None`, never a failure.

use vstd::prelude::*;
use crate::disk::Disk;
use crate::path::{join, joined};
use crate::text::{chars_of, concatenate, ends_with, has_suffix, view_of, views};
use crate::vdf::{document_at, lookup, Entry, VdfParser};

verus! {

/// Where a game is installed.
#[derive(Debug, Clone)]
pub struct GameInfo {
    pub app_id: String,
    pub game_path: String,
    pub proton_prefix: Option<String>,
    pub library_path: String,
}

/// The Steam installation that was found, with its library folders.
pub struct SteamGameFinder {
    steam_root: Option<String>,
    library_folders: Vec<String>,
}

/// The directories where Steam may be installed for the user whose home
/// directory is `home`, in the order in which they are tried.
pub open spec fn root_candidates(home: Seq<char>) -> Seq<Seq<char>> {
    seq![
        joined(home, ".steam/steam"@),
        joined(home, ".steam/root"@),
        joined(home, ".local/share/Steam"@),
        joined(home, ".var/app/com.valvesoftware.Steam"@),
        joined(home, ".var/app/com.valvesoftware.Steam/data/Steam"@),
        "/usr/share/steam"@,
    ]
}

/// Whether `path` is a Steam installation: it exists and holds a
/// `steamapps` directory.
pub open spec fn is_steam_root(disk: Disk, path: Seq<char>) -> bool {
    disk.has(path) && disk.has(joined(path, "steamapps"@))
}

/// The first of `candidates` that is a Steam installation.
pub open spec fn first_root(disk: Disk, candidates: Seq<Seq<char>>) -> Option<Seq<char>>
    decreases candidates.len(),
{
    if candidates.len() == 0 {
        None
    } else if is_steam_root(disk, candidates[0]) {
        Some(candidates[0])
    } else {
        first_root(disk, candidates.drop_first())
    }
}

/// The Steam installation of the user whose home directory is `home`:
/// the first candidate that is one. Without a home directory none is
/// found.
pub open spec fn found_root(disk: Disk, home: Option<Seq<char>>) -> Option<Seq<char>> {
    match home {
        Some(h) => first_root(disk, root_candidates(h)),
        None => None,
    }
}

/// The file that lists the further library folders of the installation at
/// `root`.
pub open spec fn descriptor_path(root: Seq<char>) -> Seq<char> {
    joined(root, "steamapps/libraryfolders.vdf"@)
}

/// The library folders that `entries` name, whether they exist or not: for
/// each key that ends with `.path`, in the order of the entries, the
/// `steamapps` directory under its value.
pub open spec fn named_libraries(entries: Seq<Entry>) -> Seq<Seq<char>>
    decreases entries.len(),
{
    if entries.len() == 0 {
        Seq::empty()
    } else {
        let front = named_libraries(entries.drop_last());
        if ends_with(entries.last().0, ".path"@) {
            front.push(joined(entries.last().1, "steamapps"@))
        } else {
            front
        }
    }
}

/// Those of `paths` that exist, in the same order.
pub open spec fn existing(disk: Disk, paths: Seq<Seq<char>>) -> Seq<Seq<char>>
    decreases paths.len(),
{
    if paths.len() == 0 {
        Seq::empty()
    } else {
        let front = existing(disk, paths.drop_last());
        if disk.has(paths.last()) {
            front.push(paths.last())
        } else {
            front
        }
    }
}

/// `paths` without repetitions: of equal paths the first stays.
pub open spec fn unique(paths: Seq<Seq<char>>) -> Seq<Seq<char>>
    decreases paths.len(),
{
    if paths.len() == 0 {
        Seq::empty()
    } else {
        let front = unique(paths.drop_last());
        if front.contains(paths.last()) {
            front
        } else {
            front.push(paths.last())
        }
    }
}

/// The library folders that the installation at `root` lists in its
/// descriptor file and that exist.
pub open spec fn listed_libraries(disk: Disk, root: Seq<char>) -> Seq<Seq<char>> {
    existing(disk, named_libraries(document_at(disk, descriptor_path(root))))
}

/// The library folders of the installation at `root`: its own `steamapps`
/// directory first, then the listed ones, without repetitions. Without an
/// installation there are none.
pub open spec fn discovered(disk: Disk, root: Option<Seq<char>>) -> Seq<Seq<char>> {
    match root {
        Some(r) => unique(seq![joined(r, "steamapps"@)] + listed_libraries(disk, r)),
        None => Seq::empty(),
    }
}

/// The manifest file of the game `app_id` in the library at `library`.
pub open spec fn manifest_path(library: Seq<char>, app_id: Seq<char>) -> Seq<char> {
    joined(library, "appmanifest_"@ + app_id + ".acf"@)
}

/// The directory in which the manifest of `app_id` in `library` says the
/// game is installed, whether it exists or not: the manifest's
/// `AppState.installdir` under the library's `common` directory.
pub open spec fn install_dir(disk: Disk, library: Seq<char>, app_id: Seq<char>) -> Option<
    Seq<char>,
> {
    let manifest = manifest_path(library, app_id);
    if !disk.has(manifest) {
        None
    } else {
        match lookup(document_at(disk, manifest), "AppState.installdir"@) {
            Some(dir) => Some(joined(joined(library, "common"@), dir)),
            None => None,
        }
    }
}

/// Where the game `app_id` is installed in the library at `library`: the
/// directory that its manifest names, if that directory exists.
pub open spec fn game_in(disk: Disk, library: Seq<char>, app_id: Seq<char>) -> Option<Seq<char>> {
    match install_dir(disk, library, app_id) {
        Some(path) => if disk.has(path) {
            Some(path)
        } else {
            None
        },
        None => None,
    }
}

/// The first of `libraries` in which the game `app_id` is installed: the
/// install directory and the library.
pub open spec fn found_game(disk: Disk, libraries: Seq<Seq<char>>, app_id: Seq<char>) -> Option<
    (Seq<char>, Seq<char>),
>
    decreases libraries.len(),
{
    if libraries.len() == 0 {
        None
    } else {
        match game_in(disk, libraries[0], app_id) {
            Some(path) => Some((path, libraries[0])),
            None => found_game(disk, libraries.drop_first(), app_id),
        }
    }
}

/// The directory that would hold the Proton prefix of `app_id` in the
/// library at `library`.
pub open spec fn compatdata_path(library: Seq<char>, app_id: Seq<char>) -> Seq<char> {
    joined(joined(joined(library, "compatdata"@), app_id), "pfx"@)
}

/// The Proton prefix of `app_id` in the library at `library`, if it
/// exists.
pub open spec fn prefix_in(disk: Disk, library: Seq<char>, app_id: Seq<char>) -> Option<
    Seq<char>,
> {
    if disk.has(compatdata_path(library, app_id)) {
        Some(compatdata_path(library, app_id))
    } else {
        None
    }
}

/// The Proton prefix of `app_id` in the first of `libraries` that has one.
pub open spec fn first_prefix(disk: Disk, libraries: Seq<Seq<char>>, app_id: Seq<char>) -> Option<
    Seq<char>,
>
    decreases libraries.len(),
{
    if libraries.len() == 0 {
        None
    } else {
        match prefix_in(disk, libraries[0], app_id) {
            Some(path) => Some(path),
            None => first_prefix(disk, libraries.drop_first(), app_id),
        }
    }
}

/// The Proton prefix of `app_id`: the one in the preferred library if
/// there is one, else the first in `libraries`.
pub open spec fn found_prefix(
    disk: Disk,
    libraries: Seq<Seq<char>>,
    app_id: Seq<char>,
    preferred: Option<Seq<char>>,
) -> Option<Seq<char>> {
    match preferred {
        Some(library) => match prefix_in(disk, library, app_id) {
            Some(path) => Some(path),
            None => first_prefix(disk, libraries, app_id),
        },
        None => first_prefix(disk, libraries, app_id),
    }
}

/// `unique` keeps no path twice, keeps exactly the paths it was given, and
/// keeps the first path first.
pub proof fn lemma_unique(paths: Seq<Seq<char>>)
    ensures
        forall|i: int, j: int|
            0 <= i < j < unique(paths).len() ==> unique(paths)[i] != unique(paths)[j],
        forall|path: Seq<char>| unique(paths).contains(path) <==> paths.contains(path),
        paths.len() > 0 ==> unique(paths).len() > 0 && unique(paths)[0] == paths[0],
    decreases paths.len(),
{
    if paths.len() > 0 {
        let front_paths = paths.drop_last();
        let front = unique(front_paths);
        let last = paths.last();
        lemma_unique(front_paths);
        assert forall|path: Seq<char>| unique(paths).contains(path) <==> paths.contains(
            path,
        ) by {
            if paths.contains(path) {
                let at = choose|at: int| 0 <= at < paths.len() && paths[at] == path;
                if at < paths.len() - 1 {
                    assert(front_paths[at] == path);
                    assert(front_paths.contains(path));
                    let kept = choose|kept: int| 0 <= kept < front.len() && front[kept] == path;
                    assert(unique(paths)[kept] == path);
                } else if !front.contains(last) {
                    assert(unique(paths)[front.len() as int] == path);
                }
            }
            if unique(paths).contains(path) {
                let kept = choose|kept: int|
                    0 <= kept < unique(paths).len() && unique(paths)[kept] == path;
                if kept < front.len() {
                    assert(front_paths.contains(path));
                }
            }
        }
    }
}

/// Library-folder discovery puts the installation's own `steamapps`
/// directory first, whatever the descriptor file lists and whether or not
/// there is one.
pub proof fn lemma_own_library_first(disk: Disk, root: Seq<char>)
    ensures
        discovered(disk, Some(root)).len() >= 1,
        discovered(disk, Some(root))[0] == joined(root, "steamapps"@),
{
    let all = seq![joined(root, "steamapps"@)] + listed_libraries(disk, root);
    assert(all[0] == joined(root, "steamapps"@));
    lemma_unique(all);
}

/// Library-folder discovery names no folder twice: a folder that the
/// descriptor file lists again, the installation's own among them, stands
/// once, at its first place.
pub proof fn lemma_libraries_distinct(disk: Disk, root: Option<Seq<char>>)
    ensures
        forall|i: int, j: int|
            0 <= i < j < discovered(disk, root).len() ==> discovered(disk, root)[i] != discovered(
                disk,
                root,
            )[j],
{
    match root {
        Some(r) => {
            lemma_unique(seq![joined(r, "steamapps"@)] + listed_libraries(disk, r));
        },
        None => {},
    }
}

/// The search for a game stops at the first library that holds it: where
/// the library at `at` holds the game and none before it does, the game is
/// found there.
pub proof fn lemma_first_library_wins(
    disk: Disk,
    libraries: Seq<Seq<char>>,
    app_id: Seq<char>,
    at: int,
)
    requires
        0 <= at < libraries.len(),
        game_in(disk, libraries[at], app_id) is Some,
        forall|k: int| 0 <= k < at ==> game_in(disk, libraries[k], app_id) is None,
    ensures
        found_game(disk, libraries, app_id) == Some(
            (game_in(disk, libraries[at], app_id).unwrap(), libraries[at]),
        ),
    decreases libraries.len(),
{
    if at > 0 {
        let rest = libraries.drop_first();
        assert(rest[at - 1] == libraries[at]);
        assert forall|k: int| 0 <= k < at - 1 implies game_in(disk, rest[k], app_id) is None by {
            assert(rest[k] == libraries[k + 1]);
        }
        lemma_first_library_wins(disk, rest, app_id, at - 1);
    }
}

/// A game that is installed in exactly one library is found there, in the
/// directory that this library's manifest names under the library's
/// `common` directory.
pub proof fn lemma_game_in_one_library(
    disk: Disk,
    libraries: Seq<Seq<char>>,
    app_id: Seq<char>,
    at: int,
)
    requires
        0 <= at < libraries.len(),
        game_in(disk, libraries[at], app_id) is Some,
        forall|k: int|
            0 <= k < libraries.len() && k != at ==> game_in(disk, libraries[k], app_id) is None,
    ensures
        lookup(
            document_at(disk, manifest_path(libraries[at], app_id)),
            "AppState.installdir"@,
        ) is Some,
        found_game(disk, libraries, app_id) == Some(
            (
                joined(
                    joined(libraries[at], "common"@),
                    lookup(
                        document_at(disk, manifest_path(libraries[at], app_id)),
                        "AppState.installdir"@,
                    ).unwrap(),
                ),
                libraries[at],
            ),
        ),
{
    lemma_first_library_wins(disk, libraries, app_id, at);
}

/// A game whose manifest is in no library is not found: the answer is
/// `None`.
pub proof fn lemma_game_in_no_library(disk: Disk, libraries: Seq<Seq<char>>, app_id: Seq<char>)
    requires
        forall|k: int|
            0 <= k < libraries.len() ==> !disk.has(manifest_path(#[trigger] libraries[k], app_id)),
    ensures
        found_game(disk, libraries, app_id) is None,
    decreases libraries.len(),
{
    if libraries.len() > 0 {
        let rest = libraries.drop_first();
        assert(!disk.has(manifest_path(libraries[0], app_id)));
        assert forall|k: int| 0 <= k < rest.len() implies !disk.has(
            manifest_path(#[trigger] rest[k], app_id),
        ) by {
            assert(rest[k] == libraries[k + 1]);
        }
        lemma_game_in_no_library(disk, rest, app_id);
    }
}

/// A game that is found is in one of the libraries, and its directory
/// exists.
pub proof fn lemma_found_game_exists(disk: Disk, libraries: Seq<Seq<char>>, app_id: Seq<char>)
    ensures
        match found_game(disk, libraries, app_id) {
            Some((game_path, library)) => {
                &&& libraries.contains(library)
                &&& game_in(disk, library, app_id) == Some(game_path)
                &&& disk.has(game_path)
            },
            None => forall|k: int|
                0 <= k < libraries.len() ==> game_in(disk, #[trigger] libraries[k], app_id)
                    is None,
        },
    decreases libraries.len(),
{
    if libraries.len() > 0 {
        let rest = libraries.drop_first();
        lemma_found_game_exists(disk, rest, app_id);
        if game_in(disk, libraries[0], app_id) is None {
            match found_game(disk, rest, app_id) {
                Some((game_path, library)) => {
                    let at = choose|at: int| 0 <= at < rest.len() && rest[at] == library;
                    assert(libraries[at + 1] == library);
                },
                None => {
                    assert forall|k: int| 0 <= k < libraries.len() implies game_in(
                        disk,
                        #[trigger] libraries[k],
                        app_id,
                    ) is None by {
                        if k > 0 {
                            assert(rest[k - 1] == libraries[k]);
                        }
                    }
                },
            }
        }
    }
}

/// A prefix that is found exists.
pub proof fn lemma_found_prefix_exists(
    disk: Disk,
    libraries: Seq<Seq<char>>,
    app_id: Seq<char>,
    preferred: Option<Seq<char>>,
)
    ensures
        match found_prefix(disk, libraries, app_id, preferred) {
            Some(prefix) => disk.has(prefix),
            None => true,
        },
{
    lemma_first_prefix_exists(disk, libraries, app_id);
}

/// The first prefix in the libraries, if there is one, exists.
proof fn lemma_first_prefix_exists(disk: Disk, libraries: Seq<Seq<char>>, app_id: Seq<char>)
    ensures
        match first_prefix(disk, libraries, app_id) {
            Some(prefix) => disk.has(prefix),
            None => true,
        },
    decreases libraries.len(),
{
    if libraries.len() > 0 {
        lemma_first_prefix_exists(disk, libraries.drop_first(), app_id);
    }
}

/// `homedir::my_home`: the home directory of the user who runs the
/// program, as the environment gives it. Nothing is claimed of the result:
/// it may differ from call to call.
#[verifier::external_body]
fn home_directory() -> (home: Option<String>) {
    match homedir::my_home() {
        Ok(Some(path)) => Some(path.to_string_lossy().into_owned()),
        Ok(None) => None,
        Err(_) => None,
    }
}

impl SteamGameFinder {
    /// The installation that was found.
    pub closed spec fn root(&self) -> Option<Seq<char>> {
        view_of(self.steam_root)
    }

    /// The library folders that were found, the installation's own first.
    pub closed spec fn folders(&self) -> Seq<Seq<char>> {
        views(self.library_folders@)
    }

    /// Whether this is what a search on `disk` finds for a user whose home
    /// directory is `home`.
    pub open spec fn found_on(&self, disk: Disk, home: Option<Seq<char>>) -> bool {
        &&& self.root() == found_root(disk, home)
        &&& self.folders() == discovered(disk, self.root())
    }

    /// Looks for Steam and its library folders on `disk`, for the user who
    /// runs the program.
    pub fn new(disk: &Disk) -> (finder: Self)
        ensures
            exists|home: Option<Seq<char>>| finder.found_on(*disk, home),
    {
        let home = home_directory();
        let finder = Self::for_home(disk, home);
        finder
    }

    /// Looks for Steam and its library folders on `disk`, for a user whose
    /// home directory is `home`.
    pub fn for_home(disk: &Disk, home: Option<String>) -> (finder: Self)
        ensures
            finder.found_on(*disk, view_of(home)),
    {
        let steam_root = Self::find_steam_root(disk, &home);
        let library_folders = Self::discover_library_folders(disk, &steam_root);
        SteamGameFinder { steam_root, library_folders }
    }

    /// The installation that was found.
    pub fn steam_root(&self) -> (root: Option<&String>)
        ensures
            match root {
                Some(r) => self.root() == Some(r@),
                None => self.root() is None,
            },
    {
        self.steam_root.as_ref()
    }

    /// The library folders that were found, the installation's own first.
    pub fn library_folders(&self) -> (folders: &[String])
        ensures
            views(folders@) == self.folders(),
    {
        self.library_folders.as_slice()
    }

    /// Where the game `app_id` is installed: the first library folder that
    /// holds it, the install directory there, and the game's Proton prefix,
    /// looked for in that library first.
    pub fn get_game_info(&self, disk: &Disk, app_id: &str) -> (info: Option<GameInfo>)
        ensures
            match info {
                Some(game) => {
                    &&& found_game(*disk, self.folders(), app_id@) == Some(
                        (game.game_path@, game.library_path@),
                    )
                    &&& game.app_id@ == app_id@
                    &&& view_of(game.proton_prefix) == found_prefix(
                        *disk,
                        self.folders(),
                        app_id@,
                        Some(game.library_path@),
                    )
                },
                None => found_game(*disk, self.folders(), app_id@) is None,
            },
    {
        match self.find_game_by_appid(disk, app_id) {
            Some((game_path, library_path)) => {
                let proton_prefix = self.find_proton_prefix(disk, app_id, Some(&library_path));
                Some(GameInfo { app_id: app_id.to_owned(), game_path, library_path, proton_prefix })
            },
            None => None,
        }
    }

    /// The directories where Steam may be installed, in the order in which
    /// they are tried.
    pub fn root_candidates(home: &str) -> (candidates: Vec<String>)
        ensures
            views(candidates@) == root_candidates(home@),
    {
        let mut candidates: Vec<String> = Vec::new();
        candidates.push(join(home, ".steam/steam"));
        candidates.push(join(home, ".steam/root"));
        candidates.push(join(home, ".local/share/Steam"));
        candidates.push(join(home, ".var/app/com.valvesoftware.Steam"));
        candidates.push(join(home, ".var/app/com.valvesoftware.Steam/data/Steam"));
        candidates.push("/usr/share/steam".to_owned());
        candidates
    }

    /// The first candidate that exists and holds a `steamapps` directory.
    pub fn find_steam_root(disk: &Disk, home: &Option<String>) -> (root: Option<String>)
        ensures
            view_of(root) == found_root(*disk, view_of(*home)),
    {
        let ghost wanted = found_root(*disk, view_of(*home));
        let user_home = match home {
            Some(h) => h,
            None => {
                return None;
            },
        };
        let candidates = Self::root_candidates(user_home.as_str());
        let ghost all = views(candidates@);
        let mut at: usize = 0;
        assert(all.subrange(0, all.len() as int) =~= all);
        while at < candidates.len()
            invariant
                at <= candidates.len(),
                all == views(candidates@),
                wanted == found_root(*disk, view_of(*home)),
                wanted == first_root(*disk, all.subrange(at as int, all.len() as int)),
            decreases candidates.len() - at,
        {
            let ghost rest = all.subrange(at as int, all.len() as int);
            assert(rest.drop_first() =~= all.subrange(at + 1, all.len() as int));
            if disk.is_present(candidates[at].as_str()) {
                let steamapps = join(candidates[at].as_str(), "steamapps");
                if disk.is_present(steamapps.as_str()) {
                    return Some(candidates[at].clone());
                }
            }
            at += 1;
        }
        None
    }

    /// The file that lists the further library folders of the installation
    /// at `root`.
    pub fn descriptor_file(root: &str) -> (file: String)
        ensures
            file@ == descriptor_path(root@),
    {
        join(root, "steamapps/libraryfolders.vdf")
    }

    /// The library folders of the installation at `steam_root`: its own
    /// `steamapps` directory first, then those that its descriptor file
    /// lists and that exist; none is repeated.
    pub fn discover_library_folders(disk: &Disk, steam_root: &Option<String>) -> (folders: Vec<
        String,
    >)
        ensures
            views(folders@) == discovered(*disk, view_of(*steam_root)),
    {
        let steam_root = match steam_root {
            Some(root) => root,
            None => {
                return Vec::new();
            },
        };
        let mut folders: Vec<String> = Vec::new();
        folders.push(join(steam_root.as_str(), "steamapps"));
        let mut listed = Self::parse_library_folders_vdf(disk, steam_root.as_str());
        let ghost head = views(folders@);
        let ghost tail = views(listed@);
        folders.append(&mut listed);
        assert(views(folders@) =~= head + tail);
        assert(head =~= seq![joined(steam_root@, "steamapps"@)]);
        Self::deduplicate_paths(folders)
    }

    /// The library folders that `data` names, whether they exist or not.
    pub fn named_library_folders(data: &crate::vdf::Document) -> (named: Vec<String>)
        ensures
            views(named@) == named_libraries(data@),
    {
        let suffix = chars_of(".path");
        let mut named: Vec<String> = Vec::new();
        let mut at: usize = 0;
        while at < data.len()
            invariant
                at <= data@.len(),
                suffix@ == ".path"@,
                views(named@) == named_libraries(data@.subrange(0, at as int)),
            decreases data@.len() - at,
        {
            let ghost upto = data@.subrange(0, at + 1);
            assert(upto.drop_last() =~= data@.subrange(0, at as int));
            let key = chars_of(data.key_at(at).as_str());
            if has_suffix(&key, &suffix) {
                named.push(join(data.value_at(at).as_str(), "steamapps"));
            }
            at += 1;
        }
        assert(data@.subrange(0, data@.len() as int) =~= data@);
        named
    }

    /// The library folders that the descriptor file of the installation at
    /// `steam_root` lists and that exist.
    pub fn parse_library_folders_vdf(disk: &Disk, steam_root: &str) -> (listed: Vec<String>)
        ensures
            views(listed@) == listed_libraries(*disk, steam_root@),
    {
        let library_file = Self::descriptor_file(steam_root);
        if !disk.is_present(library_file.as_str()) {
            return Vec::new();
        }
        let data = VdfParser::parse_file(disk, library_file.as_str());
        let named = Self::named_library_folders(&data);
        let mut listed: Vec<String> = Vec::new();
        let mut at: usize = 0;
        let ghost all = views(named@);
        while at < named.len()
            invariant
                at <= named.len(),
                all == views(named@),
                views(listed@) == existing(*disk, all.subrange(0, at as int)),
            decreases named.len() - at,
        {
            let ghost upto = all.subrange(0, at + 1);
            assert(upto.drop_last() =~= all.subrange(0, at as int));
            if disk.is_present(named[at].as_str()) {
                listed.push(named[at].clone());
            }
            at += 1;
        }
        assert(all.subrange(0, named.len() as int) =~= all);
        listed
    }

    /// `paths` without repetitions: of equal paths the first stays.
    pub fn deduplicate_paths(paths: Vec<String>) -> (kept: Vec<String>)
        ensures
            views(kept@) == unique(views(paths@)),
    {
        let ghost all = views(paths@);
        let mut kept: Vec<String> = Vec::new();
        let mut at: usize = 0;
        while at < paths.len()
            invariant
                at <= paths.len(),
                all == views(paths@),
                views(kept@) == unique(all.subrange(0, at as int)),
            decreases paths.len() - at,
        {
            let ghost upto = all.subrange(0, at + 1);
            assert(upto.drop_last() =~= all.subrange(0, at as int));
            let seen = Self::holds(&kept, &paths[at]);
            if !seen {
                kept.push(paths[at].clone());
            }
            at += 1;
        }
        assert(all.subrange(0, paths.len() as int) =~= all);
        kept
    }

    /// Whether `path` is one of `paths`.
    fn holds(paths: &Vec<String>, path: &String) -> (found: bool)
        ensures
            found == views(paths@).contains(path@),
    {
        let mut k: usize = 0;
        while k < paths.len()
            invariant
                k <= paths.len(),
                forall|j: int| 0 <= j < k ==> views(paths@)[j] != path@,
            decreases paths.len() - k,
        {
            if paths[k] == *path {
                assert(views(paths@)[k as int] == path@);
                return true;
            }
            k += 1;
        }
        false
    }

    /// The first library folder in which the game `app_id` is installed:
    /// the install directory and the library folder.
    pub fn find_game_by_appid(&self, disk: &Disk, app_id: &str) -> (found: Option<(String, String)>)
        ensures
            match found {
                Some((game_path, library_path)) => found_game(*disk, self.folders(), app_id@)
                    == Some((game_path@, library_path@)),
                None => found_game(*disk, self.folders(), app_id@) is None,
            },
    {
        let ghost all = self.folders();
        let mut at: usize = 0;
        assert(all.subrange(0, all.len() as int) =~= all);
        while at < self.library_folders.len()
            invariant
                at <= self.library_folders.len(),
                all == self.folders(),
                found_game(*disk, all, app_id@) == found_game(
                    *disk,
                    all.subrange(at as int, all.len() as int),
                    app_id@,
                ),
            decreases self.library_folders.len() - at,
        {
            let ghost rest = all.subrange(at as int, all.len() as int);
            assert(rest.drop_first() =~= all.subrange(at + 1, all.len() as int));
            match Self::check_library_for_game(disk, self.library_folders[at].as_str(), app_id) {
                Some(game) => {
                    return Some(game);
                },
                None => {},
            }
            at += 1;
        }
        None
    }

    /// The manifest file of the game `app_id` in the library at
    /// `library_path`.
    pub fn manifest_file(library_path: &str, app_id: &str) -> (file: String)
        ensures
            file@ == manifest_path(library_path@, app_id@),
    {
        let name = concatenate(concatenate("appmanifest_", app_id).as_str(), ".acf");
        join(library_path, name.as_str())
    }

    /// The directory in which the manifest of `app_id` in the library at
    /// `library_path` says the game is installed, whether it exists or not.
    pub fn install_directory(disk: &Disk, library_path: &str, app_id: &str) -> (dir: Option<String>)
        ensures
            view_of(dir) == install_dir(*disk, library_path@, app_id@),
    {
        let acf_file = Self::manifest_file(library_path, app_id);
        if !disk.is_present(acf_file.as_str()) {
            return None;
        }
        let acf_data = VdfParser::parse_file(disk, acf_file.as_str());
        match acf_data.get("AppState.installdir") {
            Some(install_dir) => {
                let common = join(library_path, "common");
                Some(join(common.as_str(), install_dir.as_str()))
            },
            None => None,
        }
    }

    /// Where the game `app_id` is installed in the library at
    /// `library_path`: the directory that its manifest names, if that
    /// directory exists, and the library.
    pub fn check_library_for_game(disk: &Disk, library_path: &str, app_id: &str) -> (found: Option<
        (String, String),
    >)
        ensures
            match found {
                Some((game_path, library)) => {
                    &&& game_in(*disk, library_path@, app_id@) == Some(game_path@)
                    &&& library@ == library_path@
                },
                None => game_in(*disk, library_path@, app_id@) is None,
            },
    {
        match Self::install_directory(disk, library_path, app_id) {
            Some(game_path) => {
                if disk.is_present(game_path.as_str()) {
                    Some((game_path, library_path.to_owned()))
                } else {
                    None
                }
            },
            None => None,
        }
    }

    /// The Proton prefix of the game `app_id`: the one in the preferred
    /// library if there is one, else the first in the library folders.
    pub fn find_proton_prefix(&self, disk: &Disk, app_id: &str, preferred_library: Option<&String>) -> (prefix:
        Option<String>)
        ensures
            view_of(prefix) == found_prefix(
                *disk,
                self.folders(),
                app_id@,
                match preferred_library {
                    Some(library) => Some(library@),
                    None => None,
                },
            ),
    {
        match preferred_library {
            Some(library) => {
                match Self::check_compatdata(disk, library.as_str(), app_id) {
                    Some(prefix) => {
                        return Some(prefix);
                    },
                    None => {},
                }
            },
            None => {},
        }
        let ghost all = self.folders();
        let ghost wanted = first_prefix(*disk, all, app_id@);
        let mut at: usize = 0;
        assert(all.subrange(0, all.len() as int) =~= all);
        while at < self.library_folders.len()
            invariant
                at <= self.library_folders.len(),
                all == self.folders(),
                wanted == found_prefix(
                    *disk,
                    self.folders(),
                    app_id@,
                    match preferred_library {
                        Some(library) => Some(library@),
                        None => None,
                    },
                ),
                wanted == first_prefix(
                    *disk,
                    all.subrange(at as int, all.len() as int),
                    app_id@,
                ),
            decreases self.library_folders.len() - at,
        {
            let ghost rest = all.subrange(at as int, all.len() as int);
            assert(rest.drop_first() =~= all.subrange(at + 1, all.len() as int));
            match Self::check_compatdata(disk, self.library_folders[at].as_str(), app_id) {
                Some(prefix) => {
                    return Some(prefix);
                },
                None => {},
            }
            at += 1;
        }
        None
    }

    /// The directory that would hold the Proton prefix of `app_id` in the
    /// library at `library_path`.
    pub fn compatdata_dir(library_path: &str, app_id: &str) -> (dir: String)
        ensures
            dir@ == compatdata_path(library_path@, app_id@),
    {
        let compatdata = join(library_path, "compatdata");
        let game = join(compatdata.as_str(), app_id);
        join(game.as_str(), "pfx")
    }

    /// The Proton prefix of `app_id` in the library at `library_path`, if
    /// it exists.
    pub fn check_compatdata(disk: &Disk, library_path: &str, app_id: &str) -> (prefix: Option<String>)
        ensures
            view_of(prefix) == prefix_in(*disk, library_path@, app_id@),
    {
        let compatdata_path = Self::compatdata_dir(library_path, app_id);
        if disk.is_present(compatdata_path.as_str()) {
            Some(compatdata_path)
        } else {
            None
        }
    }
}

} // verus!
