//! What can stop an installation.

use vstd::prelude::*;
use crate::text::{append_chars, chars_of, digits, number, string_from};

verus! {

/// Why an installation cannot go on. Every failure ends the attempt;
/// nothing is retried.
#[derive(Debug, Clone, PartialEq, Eq)]
pub enum InstallError {
    /// No Steam installation was found.
    SteamNotFound,
    /// The game is in no library folder.
    GameNotFound,
    /// The game has no Proton prefix.
    PrefixNotFound,
    /// The prefix directory at this path does not exist.
    MissingPrefixDir(String),
    /// The game directory at this path does not exist.
    MissingGameDir(String),
    /// The server answered with this status, which is no success.
    HttpStatus(u16),
    /// The version service's answer is no JSON; the text says why.
    BadResponse(String),
    /// The version service reported this error.
    Service(String),
    /// The version service's answer names no version tag.
    MissingTag,
    /// The archive cannot be read; the text says why.
    BadArchive(String),
    /// The archive's entry with this number cannot be read; the text says
    /// why.
    BadEntry(usize, String),
    /// The prefix has no registry file at this path.
    MissingRegistry(String),
    /// The registry file at this path cannot be read.
    UnreadableRegistry(String),
}

impl InstallError {
    /// The failure in words.
    pub open spec fn text(self) -> Seq<char> {
        match self {
            InstallError::SteamNotFound => "Can't find Steam installation"@,
            InstallError::GameNotFound => "Can't find Geometry Dash installation"@,
            InstallError::PrefixNotFound => "Can't find Proton prefix for Geometry Dash"@,
            InstallError::MissingPrefixDir(path) => "Prefix directory doesn't exist: \""@ + path@
                + "\""@,
            InstallError::MissingGameDir(path) => "Game directory doesn't exist: \""@ + path@
                + "\""@,
            InstallError::HttpStatus(status) => "HTTP error "@ + digits(status as nat, 10),
            InstallError::BadResponse(why) => "Failed to parse API response: "@ + why@,
            InstallError::Service(error) => "Geode API error: "@ + error@,
            InstallError::MissingTag => "Failed to extract version tag from API response"@,
            InstallError::BadArchive(why) => "Failed to read zip archive: "@ + why@,
            InstallError::BadEntry(index, why) => "Failed to access zip entry "@ + digits(
                index as nat,
                10,
            ) + ": "@ + why@,
            InstallError::MissingRegistry(path) => "Wine registry file not found: \""@ + path@
                + "\""@,
            InstallError::UnreadableRegistry(path) => "Failed to read registry file: \""@ + path@
                + "\""@,
        }
    }

    /// The failure in words.
    pub fn message(&self) -> (message: String)
        ensures
            message@ == self.text(),
    {
        let mut out: Vec<char> = Vec::new();
        match self {
            InstallError::SteamNotFound => {
                append_chars(&mut out, &chars_of("Can't find Steam installation"));
            },
            InstallError::GameNotFound => {
                append_chars(&mut out, &chars_of("Can't find Geometry Dash installation"));
            },
            InstallError::PrefixNotFound => {
                append_chars(&mut out, &chars_of("Can't find Proton prefix for Geometry Dash"));
            },
            InstallError::MissingPrefixDir(path) => {
                append_chars(&mut out, &chars_of("Prefix directory doesn't exist: \""));
                append_chars(&mut out, &chars_of(path.as_str()));
                append_chars(&mut out, &chars_of("\""));
            },
            InstallError::MissingGameDir(path) => {
                append_chars(&mut out, &chars_of("Game directory doesn't exist: \""));
                append_chars(&mut out, &chars_of(path.as_str()));
                append_chars(&mut out, &chars_of("\""));
            },
            InstallError::HttpStatus(status) => {
                append_chars(&mut out, &chars_of("HTTP error "));
                append_chars(&mut out, &number(*status as u64, 10));
            },
            InstallError::BadResponse(why) => {
                append_chars(&mut out, &chars_of("Failed to parse API response: "));
                append_chars(&mut out, &chars_of(why.as_str()));
            },
            InstallError::Service(error) => {
                append_chars(&mut out, &chars_of("Geode API error: "));
                append_chars(&mut out, &chars_of(error.as_str()));
            },
            InstallError::MissingTag => {
                append_chars(
                    &mut out,
                    &chars_of("Failed to extract version tag from API response"),
                );
            },
            InstallError::BadArchive(why) => {
                append_chars(&mut out, &chars_of("Failed to read zip archive: "));
                append_chars(&mut out, &chars_of(why.as_str()));
            },
            InstallError::BadEntry(index, why) => {
                append_chars(&mut out, &chars_of("Failed to access zip entry "));
                append_chars(&mut out, &number(*index as u64, 10));
                append_chars(&mut out, &chars_of(": "));
                append_chars(&mut out, &chars_of(why.as_str()));
            },
            InstallError::MissingRegistry(path) => {
                append_chars(&mut out, &chars_of("Wine registry file not found: \""));
                append_chars(&mut out, &chars_of(path.as_str()));
                append_chars(&mut out, &chars_of("\""));
            },
            InstallError::UnreadableRegistry(path) => {
                append_chars(&mut out, &chars_of("Failed to read registry file: \""));
                append_chars(&mut out, &chars_of(path.as_str()));
                append_chars(&mut out, &chars_of("\""));
            },
        }
        string_from(&out)
    }
}

} // verus!
