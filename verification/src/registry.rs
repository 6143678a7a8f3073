//! The DLL override that the loader needs in a Wine prefix's `user.reg`.
//!
//! The file is patched as text: where the override is already there,
//! nothing changes; where its section is there, the entry is put at the
//! section's end, on a line of its own; where the section is missing, it
//! is added at the end of the file. No other line of the file is touched.

use vstd::prelude::*;
use crate::path::{join, joined};
use crate::text::{
    append_chars, append_range, chars_of, contains, digits, find_from, first_from, includes,
    lemma_contains_is_found, lemma_first_from, lemma_occurs_inside, number, occurs_at, string_from,
};

verus! {

/// What marks the override as present: its name with the equals sign.
pub open spec fn marker() -> Seq<char> {
    "\"xinput1_4\"="@
}

/// The override entry: the marker and the value.
pub open spec fn entry() -> Seq<char> {
    marker() + "\"native,builtin\""@
}

/// The header of the section that holds DLL overrides: the bracket that
/// opens it, the section's name and the bracket that closes it.
pub open spec fn section() -> Seq<char> {
    seq!['['] + "Software\\\\Wine\\\\DllOverrides]"@
}

/// What starts the next section: a line that begins with a bracket.
pub open spec fn next_section() -> Seq<char> {
    seq!['\n', '[']
}

/// A line break.
pub open spec fn line_break() -> Seq<char> {
    seq!['\n']
}

/// The section with the override, as it is added to a file that lacks it:
/// after a blank line the header with the time in seconds, the time again
/// in hexadecimal, and the entry.
pub open spec fn new_section(timestamp: u64) -> Seq<char> {
    "\n\n"@ + section() + " "@ + digits(timestamp as nat, 10) + "\n#time="@ + digits(
        timestamp as nat,
        16,
    ) + "\n"@ + entry() + "\n"@
}

/// Where the entry goes in a file that has the section: the start of the
/// next section after the header, or the end of the file if none follows.
pub open spec fn boundary(content: Seq<char>) -> int {
    match first_from(content, section(), 0) {
        Some(header) => match first_from(content, next_section(), header + section().len()) {
            Some(next) => next,
            None => content.len() as int,
        },
        None => content.len() as int,
    }
}

/// What is put into `content` at `at` so that the entry stands there on a
/// line of its own: at the end of the file a line break, the entry and a
/// line break; behind a line that is not ended, a line break and the
/// entry; else the entry and a line break.
pub open spec fn inserted(content: Seq<char>, at: int) -> Seq<char> {
    if at == content.len() {
        line_break() + entry() + line_break()
    } else if at > 0 && content[at - 1] != '\n' {
        line_break() + entry()
    } else {
        entry() + line_break()
    }
}

/// Where the entry itself begins once it is put into `content` at `at`.
pub open spec fn entry_start(content: Seq<char>, at: int) -> int {
    if at == content.len() || (at > 0 && content[at - 1] != '\n') {
        at + 1
    } else {
        at
    }
}

/// `content` with the entry put in at `at`, as a line of its own; all of
/// `content` stands around it unchanged.
pub open spec fn with_entry_at(content: Seq<char>, at: int) -> Seq<char> {
    content.subrange(0, at) + inserted(content, at) + content.subrange(at, content.len() as int)
}

/// The file `content` with the override ensured, at the time `timestamp`.
pub open spec fn patched(content: Seq<char>, timestamp: u64) -> Seq<char> {
    if contains(content, marker()) {
        content
    } else if !contains(content, section()) {
        content + new_section(timestamp)
    } else {
        with_entry_at(content, boundary(content))
    }
}

/// The boundary lies in the file, after the section's header, and no
/// section starts between the header and it.
pub proof fn lemma_boundary(content: Seq<char>)
    requires
        contains(content, section()),
    ensures
        first_from(content, section(), 0) is Some,
        0 <= first_from(content, section(), 0).unwrap(),
        first_from(content, section(), 0).unwrap() + section().len() <= boundary(content)
            <= content.len(),
        boundary(content) < content.len() ==> occurs_at(
            content,
            next_section(),
            boundary(content),
        ),
        forall|k: int|
            first_from(content, section(), 0).unwrap() + section().len() <= k < boundary(content)
                ==> !occurs_at(content, next_section(), k),
{
    lemma_contains_is_found(content, section());
    lemma_first_from(content, section(), 0);
    let header = first_from(content, section(), 0).unwrap();
    lemma_first_from(content, next_section(), header + section().len());
}

/// A patched file holds the marker.
pub proof fn lemma_patched_has_marker(content: Seq<char>, timestamp: u64)
    ensures
        contains(patched(content, timestamp), marker()),
{
    let value = "\"native,builtin\""@;
    assert(occurs_at(marker(), marker(), 0)) by {
        assert(marker().subrange(0, marker().len() as int) =~= marker());
    }
    if contains(content, marker()) {
    } else if !contains(content, section()) {
        let before = content + "\n\n"@ + section() + " "@ + digits(timestamp as nat, 10)
            + "\n#time="@ + digits(timestamp as nat, 16) + "\n"@;
        let after = value + "\n"@;
        lemma_occurs_inside(before, marker(), after, marker(), 0);
        assert(before + marker() + after =~= patched(content, timestamp));
    } else {
        lemma_boundary(content);
        let at = boundary(content);
        let head = content.subrange(0, at);
        let tail = content.subrange(at, content.len() as int);
        if at == content.len() {
            lemma_occurs_inside(head + line_break(), marker(), value + line_break() + tail, marker(), 0);
            assert(head + line_break() + marker() + (value + line_break() + tail) =~= patched(
                content,
                timestamp,
            ));
        } else if at > 0 && content[at - 1] != '\n' {
            lemma_occurs_inside(head + line_break(), marker(), value + tail, marker(), 0);
            assert(head + line_break() + marker() + (value + tail) =~= patched(
                content,
                timestamp,
            ));
        } else {
            lemma_occurs_inside(head, marker(), value + line_break() + tail, marker(), 0);
            assert(head + marker() + (value + line_break() + tail) =~= patched(content, timestamp));
        }
    }
}

/// Ensuring the override twice gives what ensuring it once gave, whatever
/// the times of the two runs: the second run changes nothing.
pub proof fn lemma_patch_idempotent(content: Seq<char>, first: u64, second: u64)
    ensures
        patched(patched(content, first), second) == patched(content, first),
{
    lemma_patched_has_marker(content, first);
}

/// Where the file has the section but not the override, the entry is put
/// in before the next section's start, or at the end of the file. The
/// entry is a line of its own: a line break stands before it and after it.
/// Nothing but the entry and line breaks is added, and all that stood
/// before and after that place stands there unchanged: no line is altered.
pub proof fn lemma_patch_keeps_rest(content: Seq<char>, timestamp: u64)
    requires
        contains(content, section()),
        !contains(content, marker()),
    ensures
        0 < boundary(content) <= content.len(),
        boundary(content) < content.len() ==> occurs_at(
            content,
            next_section(),
            boundary(content),
        ),
        patched(content, timestamp) == content.subrange(0, boundary(content)) + inserted(
            content,
            boundary(content),
        ) + content.subrange(boundary(content), content.len() as int),
        patched(content, timestamp).subrange(0, boundary(content)) == content.subrange(
            0,
            boundary(content),
        ),
        patched(content, timestamp).subrange(
            patched(content, timestamp).len() - (content.len() - boundary(content)),
            patched(content, timestamp).len() as int,
        ) == content.subrange(boundary(content), content.len() as int),
        ({
            let start = entry_start(content, boundary(content));
            let after = patched(content, timestamp);
            &&& occurs_at(after, entry(), start)
            &&& after[start - 1] == '\n'
            &&& start + entry().len() < after.len()
            &&& after[start + entry().len()] == '\n'
        }),
{
    lemma_boundary(content);
    assert(section().len() > 0);
    let at = boundary(content);
    let after = patched(content, timestamp);
    let start = entry_start(content, at);
    assert(after.subrange(0, at) =~= content.subrange(0, at));
    assert(after.subrange(after.len() - (content.len() - at), after.len() as int)
        =~= content.subrange(at, content.len() as int));
    assert(after.subrange(start, start + entry().len()) =~= entry());
    if at < content.len() {
        assert(content.subrange(at, at + 2)[0] == '\n');
    }
}

/// The registry file of the prefix at `prefix`.
pub fn registry_file(prefix: &str) -> (file: String)
    ensures
        file@ == joined(prefix@, "user.reg"@),
{
    join(prefix, "user.reg")
}

/// The time in seconds since the start of 1970, from the system clock
/// through `SystemTime::elapsed`; zero where the clock stands before that.
/// Nothing is claimed of the result: it differs from call to call.
#[verifier::external_body]
fn current_timestamp() -> (seconds: u64) {
    match std::time::UNIX_EPOCH.elapsed() {
        Ok(since) => since.as_secs(),
        Err(_) => 0,
    }
}

/// The time `timestamp` in hexadecimal, as the section's `#time` line
/// holds it.
pub fn hex_timestamp(timestamp: u64) -> (hex: String)
    ensures
        hex@ == digits(timestamp as nat, 16),
{
    string_from(&number(timestamp, 16))
}

/// The header of the overrides section.
fn section_chars() -> (out: Vec<char>)
    ensures
        out@ == section(),
{
    let mut out: Vec<char> = Vec::new();
    out.push('[');
    append_chars(&mut out, &chars_of("Software\\\\Wine\\\\DllOverrides]"));
    out
}

/// The override entry.
fn entry_chars() -> (out: Vec<char>)
    ensures
        out@ == entry(),
{
    let mut out = chars_of("\"xinput1_4\"=");
    append_chars(&mut out, &chars_of("\"native,builtin\""));
    out
}

/// Ensures the override in `content`, with the time of the system clock
/// for a section that has to be added. A second run changes nothing.
pub fn ensure_dll_override(content: &mut String)
    ensures
        exists|timestamp: u64| final(content)@ == patched(old(content)@, timestamp),
        contains(old(content)@, marker()) ==> final(content)@ == old(content)@,
        contains(final(content)@, marker()),
{
    let timestamp = current_timestamp();
    proof {
        lemma_patched_has_marker(content@, timestamp);
    }
    ensure_dll_override_at(content, timestamp);
}

/// Ensures the override in `content`: nothing changes where the marker is
/// there; else the entry is put at the end of the overrides section, or
/// the section is added, with the time `timestamp`, where it is missing.
pub fn ensure_dll_override_at(content: &mut String, timestamp: u64)
    ensures
        final(content)@ == patched(old(content)@, timestamp),
{
    let chars = chars_of(content.as_str());
    let marker = chars_of("\"xinput1_4\"=");
    if includes(&chars, &marker) {
        return;
    }
    let section = section_chars();
    let after = if !includes(&chars, &section) {
        add_dll_overrides_section(&chars, timestamp)
    } else {
        add_dll_entry_to_section(&chars)
    };
    *content = string_from(&after);
}

/// `content` with the overrides section added at its end.
pub fn add_dll_overrides_section(content: &Vec<char>, timestamp: u64) -> (after: Vec<char>)
    ensures
        after@ == content@ + new_section(timestamp),
{
    let mut after: Vec<char> = Vec::new();
    append_chars(&mut after, content);
    append_chars(&mut after, &chars_of("\n\n"));
    append_chars(&mut after, &section_chars());
    append_chars(&mut after, &chars_of(" "));
    append_chars(&mut after, &number(timestamp, 10));
    append_chars(&mut after, &chars_of("\n#time="));
    append_chars(&mut after, &chars_of(hex_timestamp(timestamp).as_str()));
    append_chars(&mut after, &chars_of("\n"));
    append_chars(&mut after, &entry_chars());
    append_chars(&mut after, &chars_of("\n"));
    after
}

/// `content` with the entry put in at the end of the overrides section:
/// before the start of the next section, or at the end of the file. A file
/// without the section stays as it is.
pub fn add_dll_entry_to_section(content: &Vec<char>) -> (after: Vec<char>)
    ensures
        after@ == if contains(content@, section()) {
            with_entry_at(content@, boundary(content@))
        } else {
            content@
        },
{
    let header_text = section_chars();
    proof {
        lemma_contains_is_found(content@, section());
        lemma_first_from(content@, section(), 0);
    }
    let header: usize = match find_from(content, &header_text, 0) {
        Some(header) => header,
        None => {
            return content.clone();
        },
    };
    let total: usize = content.len();
    let search_start: usize = header + header_text.len();
    proof {
        lemma_first_from(content@, next_section(), search_start as int);
    }
    let mut next_header: Vec<char> = Vec::new();
    next_header.push('\n');
    next_header.push('[');
    assert(next_header@ =~= next_section());
    let insert_pos: usize = match find_from(content, &next_header, search_start) {
        Some(next) => next,
        None => content.len(),
    };
    let mut after: Vec<char> = Vec::new();
    append_range(&mut after, content, 0, insert_pos);
    if insert_pos == content.len() {
        after.push('\n');
        append_chars(&mut after, &entry_chars());
        after.push('\n');
    } else if insert_pos > 0 && content[insert_pos - 1] != '\n' {
        after.push('\n');
        append_chars(&mut after, &entry_chars());
    } else {
        append_chars(&mut after, &entry_chars());
        after.push('\n');
    }
    append_range(&mut after, content, insert_pos, content.len());
    assert(after@ =~= with_entry_at(content@, boundary(content@)));
    after
}

} // verus!
