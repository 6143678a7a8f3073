use geode_cli_installer::error::InstallError;

#[test]
fn messages() {
    assert_eq!(InstallError::SteamNotFound.message(), "Can't find Steam installation");
    assert_eq!(InstallError::GameNotFound.message(), "Can't find Geometry Dash installation");
    assert_eq!(InstallError::PrefixNotFound.message(), "Can't find Proton prefix for Geometry Dash");
    assert_eq!(
        InstallError::MissingPrefixDir("/p".to_string()).message(),
        "Prefix directory doesn't exist: \"/p\""
    );
    assert_eq!(
        InstallError::MissingGameDir("/g d".to_string()).message(),
        "Game directory doesn't exist: \"/g d\""
    );
    assert_eq!(InstallError::HttpStatus(404).message(), "HTTP error 404");
    assert_eq!(InstallError::HttpStatus(0).message(), "HTTP error 0");
    assert_eq!(InstallError::HttpStatus(65535).message(), "HTTP error 65535");
    assert_eq!(
        InstallError::BadResponse("eof".to_string()).message(),
        "Failed to parse API response: eof"
    );
    assert_eq!(InstallError::Service("down".to_string()).message(), "Geode API error: down");
    assert_eq!(
        InstallError::MissingTag.message(),
        "Failed to extract version tag from API response"
    );
    assert_eq!(InstallError::BadArchive("x".to_string()).message(), "Failed to read zip archive: x");
    assert_eq!(
        InstallError::BadEntry(12, "crc".to_string()).message(),
        "Failed to access zip entry 12: crc"
    );
    assert_eq!(
        InstallError::MissingRegistry("/p/user.reg".to_string()).message(),
        "Wine registry file not found: \"/p/user.reg\""
    );
    assert_eq!(
        InstallError::UnreadableRegistry("/p/user.reg".to_string()).message(),
        "Failed to read registry file: \"/p/user.reg\""
    );
}
