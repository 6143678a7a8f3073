use geode_cli_installer::disk::Disk;
use geode_cli_installer::path::join;
use geode_cli_installer::steam_game_finder::SteamGameFinder;

fn observe(disk: &mut Disk, path: &str) {
    if std::path::Path::new(path).exists() {
        disk.add_path(path);
    }
}

#[test]
fn test_steam_finder() {
    let mut disk = Disk::new();
    if let Ok(Some(home)) = homedir::my_home() {
        for candidate in SteamGameFinder::root_candidates(&home.to_string_lossy()) {
            observe(&mut disk, &candidate);
            observe(&mut disk, &join(&candidate, "steamapps"));
        }
    }
    let finder = SteamGameFinder::new(&disk);
    println!("Steam root: {:?}", finder.steam_root());
    println!("Library folders: {:?}", finder.library_folders());
    match finder.steam_root() {
        Some(root) => assert_eq!(finder.library_folders()[0], join(root, "steamapps")),
        None => assert!(finder.library_folders().is_empty()),
    }
}
