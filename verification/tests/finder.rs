use geode_cli_installer::disk::Disk;
use geode_cli_installer::steam_game_finder::SteamGameFinder;

const HOME: &str = "/home/u";
const ROOT: &str = "/home/u/.local/share/Steam";
const APPS: &str = "/home/u/.local/share/Steam/steamapps";

fn steam_disk() -> Disk {
    let mut disk = Disk::new();
    disk.add_path(ROOT);
    disk.add_path(APPS);
    disk
}

fn manifest(dir: &str) -> String {
    format!("\"AppState\"\n{{\n\t\"appid\"\t\t\"322170\"\n\t\"installdir\"\t\t\"{}\"\n}}\n", dir)
}

fn finder_on(disk: &Disk) -> SteamGameFinder {
    SteamGameFinder::for_home(disk, Some(HOME.to_string()))
}

#[test]
fn candidates_in_order() {
    assert_eq!(
        SteamGameFinder::root_candidates(HOME),
        vec![
            "/home/u/.steam/steam",
            "/home/u/.steam/root",
            "/home/u/.local/share/Steam",
            "/home/u/.var/app/com.valvesoftware.Steam",
            "/home/u/.var/app/com.valvesoftware.Steam/data/Steam",
            "/usr/share/steam",
        ]
    );
}

#[test]
fn root_needs_steamapps() {
    let mut disk = Disk::new();
    disk.add_path("/home/u/.steam/steam");
    disk.add_path(ROOT);
    disk.add_path(APPS);
    let home = Some(HOME.to_string());
    assert_eq!(SteamGameFinder::find_steam_root(&disk, &home), Some(ROOT.to_string()));
}

#[test]
fn first_candidate_wins() {
    let mut disk = steam_disk();
    disk.add_path("/home/u/.steam/root");
    disk.add_path("/home/u/.steam/root/steamapps");
    disk.add_path("/usr/share/steam");
    disk.add_path("/usr/share/steam/steamapps");
    let home = Some(HOME.to_string());
    assert_eq!(
        SteamGameFinder::find_steam_root(&disk, &home),
        Some("/home/u/.steam/root".to_string())
    );
}

#[test]
fn no_home_no_root() {
    let mut disk = Disk::new();
    disk.add_path("/usr/share/steam");
    disk.add_path("/usr/share/steam/steamapps");
    assert_eq!(SteamGameFinder::find_steam_root(&disk, &None), None);
    let finder = SteamGameFinder::for_home(&disk, None);
    assert_eq!(finder.steam_root(), None);
    assert!(finder.library_folders().is_empty());
}

#[test]
fn system_wide_root_is_last_resort() {
    let mut disk = Disk::new();
    disk.add_path("/usr/share/steam");
    disk.add_path("/usr/share/steam/steamapps");
    let home = Some(HOME.to_string());
    assert_eq!(
        SteamGameFinder::find_steam_root(&disk, &home),
        Some("/usr/share/steam".to_string())
    );
}

#[test]
fn own_library_first_without_descriptor() {
    let disk = steam_disk();
    let finder = finder_on(&disk);
    assert_eq!(finder.steam_root(), Some(&ROOT.to_string()));
    assert_eq!(finder.library_folders(), [APPS.to_string()]);
}

#[test]
fn own_library_is_listed_even_if_not_recorded() {
    let disk = Disk::new();
    let root = Some(ROOT.to_string());
    assert_eq!(SteamGameFinder::discover_library_folders(&disk, &root), vec![APPS.to_string()]);
}

#[test]
fn descriptor_adds_existing_libraries_only() {
    let mut disk = steam_disk();
    disk.add_file(
        "/home/u/.local/share/Steam/steamapps/libraryfolders.vdf",
        "\"libraryfolders\"\n{\n\t\"0\"\n\t{\n\t\t\"path\"\t\"/mnt/games\"\n\t}\n\t\"1\"\n\t{\n\t\t\"path\"\t\"/mnt/gone\"\n\t\t\"label\"\t\"x\"\n\t}\n\t\"2\"\n\t{\n\t\t\"path\"\t\"/mnt/more\"\n\t}\n}\n",
    );
    disk.add_path("/mnt/games/steamapps");
    disk.add_path("/mnt/more/steamapps");
    let finder = finder_on(&disk);
    assert_eq!(
        finder.library_folders(),
        [APPS.to_string(), "/mnt/games/steamapps".to_string(), "/mnt/more/steamapps".to_string()]
    );
}

#[test]
fn descriptor_repeating_the_root_is_deduplicated() {
    let mut disk = steam_disk();
    disk.add_file(
        "/home/u/.local/share/Steam/steamapps/libraryfolders.vdf",
        "\"libraryfolders\" { \"0\" { \"path\" \"/home/u/.local/share/Steam\" } \"1\" { \"path\" \"/mnt/games\" } \"2\" { \"path\" \"/mnt/games\" } }",
    );
    disk.add_path("/mnt/games/steamapps");
    let finder = finder_on(&disk);
    assert_eq!(finder.library_folders(), [APPS.to_string(), "/mnt/games/steamapps".to_string()]);
}

#[test]
fn only_keys_ending_in_path_name_libraries() {
    let mut disk = steam_disk();
    disk.add_file(
        "/home/u/.local/share/Steam/steamapps/libraryfolders.vdf",
        "\"libraryfolders\" { \"0\" { \"pathology\" \"/mnt/a\" \"path\" \"/mnt/b\" } \"path\" { \"x\" \"/mnt/c\" } } \"path\" \"/mnt/d\"",
    );
    disk.add_path("/mnt/a/steamapps");
    disk.add_path("/mnt/b/steamapps");
    disk.add_path("/mnt/c/steamapps");
    disk.add_path("/mnt/d/steamapps");
    let finder = finder_on(&disk);
    assert_eq!(finder.library_folders(), [APPS.to_string(), "/mnt/b/steamapps".to_string()]);
}

#[test]
fn deduplicate_keeps_first() {
    let paths = vec!["a".to_string(), "b".to_string(), "a".to_string(), "c".to_string(), "b".to_string()];
    assert_eq!(SteamGameFinder::deduplicate_paths(paths), vec!["a", "b", "c"]);
    assert!(SteamGameFinder::deduplicate_paths(Vec::new()).is_empty());
}

#[test]
fn paths_of_a_game() {
    assert_eq!(SteamGameFinder::manifest_file(APPS, "322170"), format!("{}/appmanifest_322170.acf", APPS));
    assert_eq!(SteamGameFinder::compatdata_dir(APPS, "322170"), format!("{}/compatdata/322170/pfx", APPS));
    assert_eq!(SteamGameFinder::descriptor_file(ROOT), format!("{}/steamapps/libraryfolders.vdf", ROOT));
}

#[test]
fn game_in_exactly_one_library() {
    let mut disk = steam_disk();
    disk.add_file(
        "/home/u/.local/share/Steam/steamapps/libraryfolders.vdf",
        "\"libraryfolders\" { \"1\" { \"path\" \"/mnt/games\" } }",
    );
    disk.add_path("/mnt/games/steamapps");
    disk.add_file("/mnt/games/steamapps/appmanifest_322170.acf", &manifest("Geometry Dash"));
    disk.add_path("/mnt/games/steamapps/common/Geometry Dash");
    let finder = finder_on(&disk);
    let info = finder.get_game_info(&disk, "322170").unwrap();
    assert_eq!(info.app_id, "322170");
    assert_eq!(info.game_path, "/mnt/games/steamapps/common/Geometry Dash");
    assert_eq!(info.library_path, "/mnt/games/steamapps");
    assert_eq!(info.proton_prefix, None);
}

#[test]
fn first_library_with_the_game_wins() {
    let mut disk = steam_disk();
    disk.add_file(
        "/home/u/.local/share/Steam/steamapps/libraryfolders.vdf",
        "\"libraryfolders\" { \"1\" { \"path\" \"/mnt/games\" } }",
    );
    disk.add_path("/mnt/games/steamapps");
    disk.add_file(&format!("{}/appmanifest_322170.acf", APPS), &manifest("GD"));
    disk.add_path(&format!("{}/common/GD", APPS));
    disk.add_file("/mnt/games/steamapps/appmanifest_322170.acf", &manifest("Geometry Dash"));
    disk.add_path("/mnt/games/steamapps/common/Geometry Dash");
    let finder = finder_on(&disk);
    let info = finder.get_game_info(&disk, "322170").unwrap();
    assert_eq!(info.game_path, format!("{}/common/GD", APPS));
    assert_eq!(info.library_path, APPS);
}

#[test]
fn absent_game_is_none() {
    let disk = steam_disk();
    let finder = finder_on(&disk);
    assert!(finder.get_game_info(&disk, "322170").is_none());
    assert_eq!(finder.find_game_by_appid(&disk, "322170"), None);
}

#[test]
fn manifest_without_install_dir_is_no_game() {
    let mut disk = steam_disk();
    disk.add_file(&format!("{}/appmanifest_322170.acf", APPS), "\"AppState\" { \"appid\" \"322170\" }");
    disk.add_path(&format!("{}/common/Geometry Dash", APPS));
    assert_eq!(SteamGameFinder::check_library_for_game(&disk, APPS, "322170"), None);
    assert_eq!(SteamGameFinder::install_directory(&disk, APPS, "322170"), None);
}

#[test]
fn missing_install_dir_is_no_game() {
    let mut disk = steam_disk();
    disk.add_file(&format!("{}/appmanifest_322170.acf", APPS), &manifest("Geometry Dash"));
    assert_eq!(
        SteamGameFinder::install_directory(&disk, APPS, "322170"),
        Some(format!("{}/common/Geometry Dash", APPS))
    );
    assert_eq!(SteamGameFinder::check_library_for_game(&disk, APPS, "322170"), None);
}

#[test]
fn other_app_id_is_not_found() {
    let mut disk = steam_disk();
    disk.add_file(&format!("{}/appmanifest_322170.acf", APPS), &manifest("Geometry Dash"));
    disk.add_path(&format!("{}/common/Geometry Dash", APPS));
    let finder = finder_on(&disk);
    assert!(finder.get_game_info(&disk, "322171").is_none());
    assert!(finder.get_game_info(&disk, "322170").is_some());
}

#[test]
fn prefix_in_preferred_library_first() {
    let mut disk = steam_disk();
    disk.add_file(
        "/home/u/.local/share/Steam/steamapps/libraryfolders.vdf",
        "\"libraryfolders\" { \"1\" { \"path\" \"/mnt/games\" } }",
    );
    disk.add_path("/mnt/games/steamapps");
    disk.add_path(&format!("{}/compatdata/322170/pfx", APPS));
    disk.add_path("/mnt/games/steamapps/compatdata/322170/pfx");
    let finder = finder_on(&disk);
    let preferred = "/mnt/games/steamapps".to_string();
    assert_eq!(
        finder.find_proton_prefix(&disk, "322170", Some(&preferred)),
        Some("/mnt/games/steamapps/compatdata/322170/pfx".to_string())
    );
    assert_eq!(
        finder.find_proton_prefix(&disk, "322170", None),
        Some(format!("{}/compatdata/322170/pfx", APPS))
    );
}

#[test]
fn prefix_falls_back_to_other_libraries() {
    let mut disk = steam_disk();
    disk.add_file(
        "/home/u/.local/share/Steam/steamapps/libraryfolders.vdf",
        "\"libraryfolders\" { \"1\" { \"path\" \"/mnt/games\" } }",
    );
    disk.add_path("/mnt/games/steamapps");
    disk.add_file("/mnt/games/steamapps/appmanifest_322170.acf", &manifest("Geometry Dash"));
    disk.add_path("/mnt/games/steamapps/common/Geometry Dash");
    disk.add_path(&format!("{}/compatdata/322170/pfx", APPS));
    let finder = finder_on(&disk);
    let info = finder.get_game_info(&disk, "322170").unwrap();
    assert_eq!(info.library_path, "/mnt/games/steamapps");
    assert_eq!(info.proton_prefix, Some(format!("{}/compatdata/322170/pfx", APPS)));
}

#[test]
fn no_prefix_anywhere() {
    let disk = steam_disk();
    let finder = finder_on(&disk);
    assert_eq!(finder.find_proton_prefix(&disk, "322170", None), None);
    assert_eq!(SteamGameFinder::check_compatdata(&disk, APPS, "322170"), None);
}

#[test]
fn disk_records_paths_and_texts() {
    let mut disk = Disk::new();
    assert!(!disk.is_present("/a"));
    assert_eq!(disk.read_to_string("/a"), None);
    disk.add_path("/a");
    assert!(disk.is_present("/a"));
    assert_eq!(disk.read_to_string("/a"), None);
    disk.add_file("/f", "one");
    disk.add_file("/f", "two");
    assert!(disk.is_present("/f"));
    assert_eq!(disk.read_to_string("/f"), Some("two".to_string()));
    assert!(!disk.is_present("/g"));
}
