//! Unpacking the loader's archive: what becomes of each entry.
//!
//! The library reads the archive's directory and decides, entry by entry,
//! what is to be created and where. An entry whose path would leave the
//! destination is skipped. The caller creates the directories and writes
//! the files.

use vstd::prelude::*;
use crate::error::InstallError;
use crate::path::{join, joined};
use crate::text::{chars_of, view_of};

verus! {

/// What the directory of an archive says of one entry.
#[derive(Debug, Clone, PartialEq, Eq)]
pub struct ArchiveEntry {
    /// The entry's name as the archive holds it.
    pub name: String,
    /// The name as a path that stays under the directory it is unpacked
    /// into, if the name can be read as one.
    pub enclosed_name: Option<String>,
    /// The entry's Unix permission bits, if the archive holds them.
    pub unix_mode: Option<u32>,
}

/// What is to be done for one entry of the archive.
#[derive(Debug, Clone, PartialEq, Eq)]
pub enum ExtractStep {
    /// Nothing: the entry is left out.
    Skip,
    /// Create the directory `path` with all its parents, and give it the
    /// permissions `mode` if there are any.
    CreateDir { path: String, mode: Option<u32> },
    /// Create the parents of `path`, write the content of the entry
    /// number `index` to the file `path`, and give it the permissions
    /// `mode` if there are any.
    WriteFile { index: usize, path: String, mode: Option<u32> },
}

/// An entry as plain values: its name, its enclosed name, its mode.
pub type EntryInfo = (Seq<char>, Option<Seq<char>>, Option<u32>);

/// A step as plain values.
pub enum Step {
    Skip,
    CreateDir { path: Seq<char>, mode: Option<u32> },
    WriteFile { index: nat, path: Seq<char>, mode: Option<u32> },
}

impl View for ArchiveEntry {
    type V = EntryInfo;

    open spec fn view(&self) -> EntryInfo {
        (self.name@, view_of(self.enclosed_name), self.unix_mode)
    }
}

impl View for ExtractStep {
    type V = Step;

    open spec fn view(&self) -> Step {
        match *self {
            ExtractStep::Skip => Step::Skip,
            ExtractStep::CreateDir { path, mode } => Step::CreateDir { path: path@, mode },
            ExtractStep::WriteFile { index, path, mode } => Step::WriteFile {
                index: index as nat,
                path: path@,
                mode,
            },
        }
    }
}

/// What unpacking an archive comes to: the steps for its entries, in the
/// archive's order, up to the first entry that cannot be read, and the
/// failure that ended it, if one did.
#[derive(Debug, Clone, PartialEq, Eq)]
pub struct Extraction {
    pub steps: Vec<ExtractStep>,
    pub failure: Option<InstallError>,
}

/// The number of entries that `zip` finds in the archive `bytes`, or its
/// words for why `bytes` is no archive.
pub uninterp spec fn archive_len(bytes: Seq<u8>) -> Result<nat, Seq<char>>;

/// What `zip` reads of the entry number `index` of the archive `bytes`:
/// its name, its enclosed name and its Unix mode, or its words for why the
/// entry cannot be read.
pub uninterp spec fn archive_entry(bytes: Seq<u8>, index: nat) -> Result<EntryInfo, Seq<char>>;

/// `zip::ZipArchive::new` on `bytes`, and `len` of the archive: the number
/// of entries, or the error's text. The result is the one that
/// `archive_len` names.
#[verifier::external_body]
fn entry_count(bytes: &[u8]) -> (count: Result<usize, String>)
    ensures
        match count {
            Ok(n) => archive_len(bytes@) == Ok::<_, Seq<char>>(n as nat),
            Err(why) => archive_len(bytes@) == Err::<nat, _>(why@),
        },
{
    match zip::ZipArchive::new(std::io::Cursor::new(bytes)) {
        Ok(archive) => Ok(archive.len()),
        Err(why) => Err(why.to_string()),
    }
}

/// `zip::ZipArchive::by_index` on the archive `bytes`, and of the entry
/// `name`, `enclosed_name` and `unix_mode`; a name that cannot be decoded
/// is given as empty. The result is the one that `archive_entry` names.
#[verifier::external_body]
fn entry_at(bytes: &[u8], index: usize) -> (read: Result<ArchiveEntry, String>)
    ensures
        match read {
            Ok(entry) => archive_entry(bytes@, index as nat) == Ok::<_, Seq<char>>(entry@),
            Err(why) => archive_entry(bytes@, index as nat) == Err::<EntryInfo, _>(why@),
        },
{
    let mut archive = match zip::ZipArchive::new(std::io::Cursor::new(bytes)) {
        Ok(archive) => archive,
        Err(why) => return Err(why.to_string()),
    };
    let file = match archive.by_index(index) {
        Ok(file) => file,
        Err(why) => return Err(why.to_string()),
    };
    let name = file.name().map(String::from).unwrap_or_default();
    let enclosed_name = file.enclosed_name().map(|path| path.to_string_lossy().into_owned());
    Ok(ArchiveEntry { name, enclosed_name, unix_mode: file.unix_mode() })
}

/// Whether the component `..` stands in `path` at `at`.
pub open spec fn parent_segment_at(path: Seq<char>, at: int) -> bool {
    &&& 0 <= at
    &&& at + 2 <= path.len()
    &&& path[at] == '.'
    &&& path[at + 1] == '.'
    &&& (at == 0 || path[at - 1] == '/')
    &&& (at + 2 == path.len() || path[at + 2] == '/')
}

/// Whether `path` is absolute: it begins with a slash.
pub open spec fn is_absolute(path: Seq<char>) -> bool {
    path.len() > 0 && path[0] == '/'
}

/// Whether `path` has a component `..`.
pub open spec fn climbs(path: Seq<char>) -> bool {
    exists|at: int| parent_segment_at(path, at)
}

/// Whether `path` is relative and has no component `..`: joined to a
/// directory it names a place under that directory.
pub open spec fn stays_inside(path: Seq<char>) -> bool {
    &&& !is_absolute(path)
    &&& !climbs(path)
}

/// Whether `name` names a directory: it ends with a slash.
pub open spec fn names_directory(name: Seq<char>) -> bool {
    name.len() > 0 && name.last() == '/'
}

/// What is to be done for the entry `entry`, the number `index` of its
/// archive, when the archive is unpacked into `destination`. An entry is
/// skipped where the path that it declares would leave the destination:
/// where it has no enclosed name, where its name is absolute, or where its
/// enclosed name does not stay inside. Any other goes to its enclosed name
/// under `destination`: as a directory where its name ends with a slash,
/// else as a file.
pub open spec fn step_for(entry: EntryInfo, index: nat, destination: Seq<char>) -> Step {
    match entry.1 {
        None => Step::Skip,
        Some(enclosed) => if is_absolute(entry.0) || !stays_inside(enclosed) {
            Step::Skip
        } else if names_directory(entry.0) {
            Step::CreateDir { path: joined(destination, enclosed), mode: entry.2 }
        } else {
            Step::WriteFile { index, path: joined(destination, enclosed), mode: entry.2 }
        },
    }
}

/// How many entries of the archive `bytes`, from the first on and among
/// the first `count`, can be read.
pub open spec fn readable(bytes: Seq<u8>, count: nat) -> nat
    decreases count,
{
    if count == 0 {
        0
    } else {
        let before = readable(bytes, (count - 1) as nat);
        if before == count - 1 && archive_entry(bytes, (count - 1) as nat) is Ok {
            count
        } else {
            before
        }
    }
}

/// The steps for the first `count` entries of the archive `bytes`.
pub open spec fn steps_for(bytes: Seq<u8>, destination: Seq<char>, count: nat) -> Seq<Step>
    decreases count,
{
    if count == 0 {
        Seq::empty()
    } else {
        steps_for(bytes, destination, (count - 1) as nat).push(
            step_for(
                archive_entry(bytes, (count - 1) as nat)->Ok_0,
                (count - 1) as nat,
                destination,
            ),
        )
    }
}

/// The steps of `steps`, as plain values.
pub open spec fn step_views(steps: Seq<ExtractStep>) -> Seq<Step> {
    steps.map_values(|step: ExtractStep| step@)
}

/// Whether `extraction` is what unpacking the archive `bytes` into
/// `destination` comes to. Where `bytes` is no archive, there is no step
/// and the failure says why. Else the steps are those of the entries that
/// can be read, from the first on; where one cannot be read, the steps end
/// before it and the failure names it.
pub open spec fn unpacks(bytes: Seq<u8>, destination: Seq<char>, extraction: Extraction) -> bool {
    match archive_len(bytes) {
        Err(why) => {
            &&& extraction.steps@.len() == 0
            &&& extraction.failure matches Some(InstallError::BadArchive(text))
            &&& text@ == why
        },
        Ok(count) => {
            let good = readable(bytes, count);
            &&& step_views(extraction.steps@) == steps_for(bytes, destination, good)
            &&& if good == count {
                extraction.failure is None
            } else {
                &&& extraction.failure matches Some(InstallError::BadEntry(index, text))
                &&& index == good
                &&& archive_entry(bytes, good) == Err::<EntryInfo, _>(text@)
            }
        },
    }
}

/// No step leads out of the destination: a step that creates or writes
/// does so at a path that is the destination joined with a relative path
/// without a component `..`, and so begins with the destination. An entry
/// without an enclosed name is skipped, and so is one whose name is
/// absolute.
pub proof fn lemma_steps_stay_inside(entry: EntryInfo, index: nat, destination: Seq<char>)
    ensures
        entry.1 is None ==> step_for(entry, index, destination) == Step::Skip,
        is_absolute(entry.0) ==> step_for(entry, index, destination) == Step::Skip,
        entry.1 is Some && !stays_inside(entry.1.unwrap()) ==> step_for(entry, index, destination)
            == Step::Skip,
        match step_for(entry, index, destination) {
            Step::Skip => true,
            Step::CreateDir { path, mode } => {
                &&& entry.1 is Some
                &&& !is_absolute(entry.0)
                &&& stays_inside(entry.1.unwrap())
                &&& path == joined(destination, entry.1.unwrap())
                &&& path.len() >= destination.len()
                &&& path.subrange(0, destination.len() as int) == destination
            },
            Step::WriteFile { index, path, mode } => {
                &&& entry.1 is Some
                &&& !is_absolute(entry.0)
                &&& stays_inside(entry.1.unwrap())
                &&& path == joined(destination, entry.1.unwrap())
                &&& path.len() >= destination.len()
                &&& path.subrange(0, destination.len() as int) == destination
            },
        },
{
    match entry.1 {
        Some(enclosed) => {
            let path = joined(destination, enclosed);
            assert(stays_inside(enclosed) ==> path.subrange(0, destination.len() as int)
                =~= destination);
        },
        None => {},
    }
}

/// Whether `path` is relative and has no component `..`.
pub fn path_stays_inside(path: &str) -> (inside: bool)
    ensures
        inside == stays_inside(path@),
{
    let chars = chars_of(path);
    if chars.len() > 0 && chars[0] == '/' {
        return false;
    }
    let mut at: usize = 0;
    while at < chars.len()
        invariant
            at <= chars.len(),
            chars@ == path@,
            !(chars.len() > 0 && chars@[0] == '/'),
            forall|k: int| 0 <= k < at ==> !parent_segment_at(chars@, k),
        decreases chars.len() - at,
    {
        if chars.len() - at >= 2 && chars[at] == '.' && chars[at + 1] == '.' && (at == 0
            || chars[at - 1] == '/') && (chars.len() - at == 2 || chars[at + 2] == '/') {
            assert(parent_segment_at(chars@, at as int));
            return false;
        }
        at += 1;
    }
    true
}

/// Whether `name` names a directory.
fn is_directory_name(name: &str) -> (directory: bool)
    ensures
        directory == names_directory(name@),
{
    let chars = chars_of(name);
    chars.len() > 0 && chars[chars.len() - 1] == '/'
}

/// Whether `path` is absolute.
fn is_absolute_path(path: &str) -> (absolute: bool)
    ensures
        absolute == is_absolute(path@),
{
    let chars = chars_of(path);
    chars.len() > 0 && chars[0] == '/'
}

/// What is to be done for `entry`, the number `index` of its archive, when
/// the archive is unpacked into `destination`.
pub fn extract_zip_entry(entry: &ArchiveEntry, index: usize, destination: &str) -> (step:
    ExtractStep)
    ensures
        step@ == step_for(entry@, index as nat, destination@),
{
    let enclosed = match &entry.enclosed_name {
        Some(enclosed) => enclosed,
        None => {
            return ExtractStep::Skip;
        },
    };
    if is_absolute_path(entry.name.as_str()) || !path_stays_inside(enclosed.as_str()) {
        return ExtractStep::Skip;
    }
    let path = join(destination, enclosed.as_str());
    if is_directory_name(entry.name.as_str()) {
        ExtractStep::CreateDir { path, mode: entry.unix_mode }
    } else {
        ExtractStep::WriteFile { index, path, mode: entry.unix_mode }
    }
}

/// Reads the directory of the archive `bytes` and decides what is to be
/// done for each entry when it is unpacked into `destination`.
pub fn extract_zip(bytes: &[u8], destination: &str) -> (extraction: Extraction)
    ensures
        unpacks(bytes@, destination@, extraction),
{
    let count = match entry_count(bytes) {
        Ok(count) => count,
        Err(why) => {
            return Extraction { steps: Vec::new(), failure: Some(InstallError::BadArchive(why)) };
        },
    };
    let mut steps: Vec<ExtractStep> = Vec::new();
    let mut index: usize = 0;
    while index < count
        invariant
            index <= count,
            archive_len(bytes@) == Ok::<_, Seq<char>>(count as nat),
            readable(bytes@, index as nat) == index,
            step_views(steps@) == steps_for(bytes@, destination@, index as nat),
        decreases count - index,
    {
        match entry_at(bytes, index) {
            Ok(entry) => {
                let step = extract_zip_entry(&entry, index, destination);
                steps.push(step);
            },
            Err(why) => {
                proof {
                    lemma_readable_stops(bytes@, index as nat, count as nat);
                }
                return Extraction { steps, failure: Some(InstallError::BadEntry(index, why)) };
            },
        }
        index += 1;
    }
    Extraction { steps, failure: None }
}

/// Where the entry number `bad` cannot be read and all before it can, the
/// readable entries among the first `count` are those before `bad`.
proof fn lemma_readable_stops(bytes: Seq<u8>, bad: nat, count: nat)
    requires
        bad < count,
        readable(bytes, bad) == bad,
        archive_entry(bytes, bad) is Err,
    ensures
        readable(bytes, count) == bad,
    decreases count,
{
    if count > bad + 1 {
        lemma_readable_stops(bytes, bad, (count - 1) as nat);
    }
}

} // verus!
