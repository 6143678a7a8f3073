//! What the caller has found on disk.
//!
//! The library never touches the file system. The caller looks, records
//! what it saw in a `Disk`, and the library decides on that record: a path
//! that was not recorded does not exist for it, and a file whose text was
//! not recorded cannot be read.

use vstd::prelude::*;

verus! {

/// A record of paths that exist and of the text of files.
pub struct Disk {
    present: Vec<String>,
    files: Vec<(String, String)>,
}

/// The text recorded for `path`: that of the latest record for it.
pub open spec fn text_in(files: Seq<(Seq<char>, Seq<char>)>, path: Seq<char>) -> Option<
    Seq<char>,
>
    decreases files.len(),
{
    if files.len() == 0 {
        None
    } else if files.last().0 == path {
        Some(files.last().1)
    } else {
        text_in(files.drop_last(), path)
    }
}

impl Disk {
    /// The paths that were recorded, in the order of recording.
    pub closed spec fn recorded(&self) -> Seq<Seq<char>> {
        self.present@.map_values(|path: String| path@)
    }

    /// The files whose text was recorded, each path with its text, in the
    /// order of recording.
    pub closed spec fn texts(&self) -> Seq<(Seq<char>, Seq<char>)> {
        self.files@.map_values(|file: (String, String)| (file.0@, file.1@))
    }

    /// Whether `path` exists.
    pub open spec fn has(&self, path: Seq<char>) -> bool {
        self.recorded().contains(path)
    }

    /// The text of the file at `path`, if it can be read.
    pub open spec fn text(&self, path: Seq<char>) -> Option<Seq<char>> {
        text_in(self.texts(), path)
    }

    /// A record of nothing: no path exists.
    pub fn new() -> (disk: Disk)
        ensures
            disk.recorded() == Seq::<Seq<char>>::empty(),
            disk.texts() == Seq::<(Seq<char>, Seq<char>)>::empty(),
    {
        let disk = Disk { present: Vec::new(), files: Vec::new() };
        disk
    }

    /// Records that `path` exists.
    pub fn add_path(&mut self, path: &str)
        ensures
            final(self).recorded() == old(self).recorded().push(path@),
            final(self).texts() == old(self).texts(),
    {
        self.present.push(path.to_owned());
    }

    /// Records that the file at `path` exists and holds `text`.
    pub fn add_file(&mut self, path: &str, text: &str)
        ensures
            final(self).recorded() == old(self).recorded().push(path@),
            final(self).texts() == old(self).texts().push((path@, text@)),
    {
        self.present.push(path.to_owned());
        self.files.push((path.to_owned(), text.to_owned()));
    }

    /// Whether `path` exists.
    pub fn is_present(&self, path: &str) -> (found: bool)
        ensures
            found == self.has(path@),
    {
        let wanted = path.to_owned();
        let mut at: usize = 0;
        while at < self.present.len()
            invariant
                at <= self.present.len(),
                wanted@ == path@,
                forall|k: int| 0 <= k < at ==> self.recorded()[k] != path@,
            decreases self.present.len() - at,
        {
            if self.present[at] == wanted {
                assert(self.recorded()[at as int] == path@);
                return true;
            }
            at += 1;
        }
        false
    }

    /// The text of the file at `path`, if it can be read.
    pub fn read_to_string(&self, path: &str) -> (text: Option<String>)
        ensures
            match text {
                Some(t) => self.text(path@) == Some(t@),
                None => self.text(path@) is None,
            },
    {
        let wanted = path.to_owned();
        let mut at: usize = self.files.len();
        assert(self.texts().subrange(0, at as int) =~= self.texts());
        while at > 0
            invariant
                at <= self.files.len(),
                wanted@ == path@,
                text_in(self.texts(), path@) == text_in(self.texts().subrange(0, at as int), path@),
            decreases at,
        {
            at -= 1;
            let ghost upto = self.texts().subrange(0, at + 1);
            assert(upto.drop_last() =~= self.texts().subrange(0, at as int));
            if self.files[at].0 == wanted {
                return Some(self.files[at].1.clone());
            }
        }
        None
    }
}

} // verus!
