//! The key/value text format of Steam's library and manifest files.
//!
//! A file is a run of quoted keys, each followed by a quoted value or by a
//! block in braces that holds further keys. The parser flattens it: a value
//! is stored under the keys of the blocks around it and its own key, joined
//! by dots. Input that breaks the format is never refused: what cannot be
//! read is skipped, and what was read before the end of the input is kept.

use vstd::prelude::*;
use crate::disk::Disk;
use crate::text::{append_chars, chars_with_room, string_from};

verus! {

/// One key with its value.
pub type Entry = (Seq<char>, Seq<char>);

/// Whether `c` is white space, as Unicode defines it.
pub open spec fn is_space(c: char) -> bool {
    let n = c as u32;
    ||| 0x09 <= n <= 0x0D
    ||| n == 0x20
    ||| n == 0x85
    ||| n == 0xA0
    ||| n == 0x1680
    ||| 0x2000 <= n <= 0x200A
    ||| n == 0x2028
    ||| n == 0x2029
    ||| n == 0x202F
    ||| n == 0x205F
    ||| n == 0x3000
}

/// The first position at or after `pos` that holds no white space.
pub open spec fn skip_spaces(s: Seq<char>, pos: int) -> int
    decreases s.len() - pos,
{
    if 0 <= pos < s.len() && is_space(s[pos]) {
        skip_spaces(s, pos + 1)
    } else {
        pos
    }
}

/// The first position at or after `pos` that holds `c`, or the length of
/// `s` if there is none.
pub open spec fn find_char(s: Seq<char>, pos: int, c: char) -> int
    decreases s.len() - pos,
{
    if pos < 0 || pos >= s.len() {
        s.len() as int
    } else if s[pos] == c {
        pos
    } else {
        find_char(s, pos + 1, c)
    }
}

/// Whether a comment starts at `pos`: two slashes.
pub open spec fn starts_comment(s: Seq<char>, pos: int) -> bool {
    0 <= pos && pos + 1 < s.len() && s[pos] == '/' && s[pos + 1] == '/'
}

/// The key `key` inside the block whose keys are `prefix`.
pub open spec fn dotted(prefix: Seq<char>, key: Seq<char>) -> Seq<char> {
    if prefix.len() == 0 {
        key
    } else {
        prefix + seq!['.'] + key
    }
}

/// What reading a key comes to.
pub struct KeyStep {
    /// The assignment that was read, if the key has a value.
    pub assigned: Option<Entry>,
    /// Where reading goes on.
    pub next: int,
    /// The flattened keys of the blocks that are open from there on.
    pub open: Seq<Seq<char>>,
}

/// What the key whose opening quote stands at `p` comes to, inside the
/// open blocks `open`. The key runs to the next quote; its flattened key is
/// the innermost block's key and its own, joined by a dot. After the
/// closing quote white space is passed over. Then:
/// - a quote starts the value, which runs to the next quote: the key is
///   assigned that value, and reading goes on after the closing quote;
/// - an opening brace opens a block under the flattened key, and reading
///   goes on after the brace;
/// - anything else: the key is dropped, and reading goes on right there.
///
/// A quote that is never closed runs to the end of the text, and reading
/// goes on one past the end: nothing more is read.
pub open spec fn key_step(s: Seq<char>, p: int, open: Seq<Seq<char>>) -> KeyStep {
    let key_end = find_char(s, p + 1, '"');
    let key = dotted(open.last(), s.subrange(p + 1, key_end));
    let q = skip_spaces(s, key_end + 1);
    if q < s.len() && s[q] == '"' {
        let value_end = find_char(s, q + 1, '"');
        KeyStep {
            assigned: Some((key, s.subrange(q + 1, value_end))),
            next: value_end + 1,
            open,
        }
    } else if q < s.len() && s[q] == '{' {
        KeyStep { assigned: None, next: q + 1, open: open.push(key) }
    } else {
        KeyStep { assigned: None, next: q, open }
    }
}

/// The assignments read from position `pos` on, in source order. `open`
/// holds the flattened key of each block that is open at `pos`, the
/// outermost first; the top level is the block with the empty key.
///
/// White space separates; two slashes start a comment that runs to the end
/// of the line. A closing brace ends the innermost block, and ends the
/// scan when it closes the top level. An opening brace that follows no key
/// is skipped. A quote starts a key, which goes as `key_step` says. Any
/// other character is skipped.
pub open spec fn scan(s: Seq<char>, pos: int, open: Seq<Seq<char>>) -> Seq<Entry>
    decreases s.len() + 1 - pos,
    via scan_decreases
{
    let p = skip_spaces(s, pos);
    if pos < 0 || p >= s.len() || open.len() == 0 {
        Seq::empty()
    } else if starts_comment(s, p) {
        scan(s, find_char(s, p, '\n'), open)
    } else if s[p] == '}' {
        scan(s, p + 1, open.drop_last())
    } else if s[p] == '{' {
        scan(s, p + 1, open)
    } else if s[p] == '"' {
        let step = key_step(s, p, open);
        match step.assigned {
            Some(entry) => seq![entry] + scan(s, step.next, step.open),
            None => scan(s, step.next, step.open),
        }
    } else {
        scan(s, p + 1, open)
    }
}

#[via_fn]
proof fn scan_decreases(s: Seq<char>, pos: int, open: Seq<Seq<char>>) {
    if 0 <= pos {
        lemma_skip_spaces(s, pos);
        let p = skip_spaces(s, pos);
        if p < s.len() {
            lemma_find_char(s, p, '\n');
            lemma_key_step(s, p, open);
        }
    }
}

/// Reading a key moves forward, and at most to one past the end.
pub proof fn lemma_key_step(s: Seq<char>, p: int, open: Seq<Seq<char>>)
    requires
        0 <= p < s.len(),
    ensures
        p < key_step(s, p, open).next <= s.len() + 1,
        open.len() > 0 ==> key_step(s, p, open).open.len() > 0,
{
    lemma_find_char(s, p + 1, '"');
    let key_end = find_char(s, p + 1, '"');
    lemma_skip_spaces(s, key_end + 1);
    let q = skip_spaces(s, key_end + 1);
    if q < s.len() {
        lemma_find_char(s, q + 1, '"');
    }
}

/// A comment is ignored: where two slashes stand at a place where a key
/// could start, what is read is what is read from the end of that line on,
/// whatever the comment holds.
pub proof fn lemma_comment_is_ignored(s: Seq<char>, pos: int, open: Seq<Seq<char>>)
    requires
        0 <= pos,
        open.len() > 0,
        starts_comment(s, skip_spaces(s, pos)),
    ensures
        scan(s, pos, open) == scan(s, find_char(s, skip_spaces(s, pos), '\n'), open),
        skip_spaces(s, pos) < find_char(s, skip_spaces(s, pos), '\n') <= s.len(),
        forall|k: int|
            skip_spaces(s, pos) <= k < find_char(s, skip_spaces(s, pos), '\n') ==> s[k] != '\n',
{
    lemma_skip_spaces(s, pos);
    lemma_find_char(s, skip_spaces(s, pos), '\n');
}

/// The assignments of the text `s`, in source order.
pub open spec fn assignments(s: Seq<char>) -> Seq<Entry> {
    scan(s, 0, seq![Seq::empty()])
}

/// `skip_spaces` moves forward, stays inside the text, and stops on a
/// character that is no white space.
pub proof fn lemma_skip_spaces(s: Seq<char>, pos: int)
    requires
        0 <= pos,
    ensures
        pos <= skip_spaces(s, pos),
        pos <= s.len() ==> skip_spaces(s, pos) <= s.len(),
        pos >= s.len() ==> skip_spaces(s, pos) == pos,
        skip_spaces(s, pos) < s.len() ==> !is_space(s[skip_spaces(s, pos)]),
        skip_spaces(s, skip_spaces(s, pos)) == skip_spaces(s, pos),
    decreases s.len() - pos,
{
    if pos < s.len() && is_space(s[pos]) {
        lemma_skip_spaces(s, pos + 1);
    }
}

/// `find_char` moves forward, stays inside the text, and passes over no
/// occurrence of `c`.
pub proof fn lemma_find_char(s: Seq<char>, pos: int, c: char)
    requires
        0 <= pos <= s.len(),
    ensures
        pos <= find_char(s, pos, c) <= s.len(),
        find_char(s, pos, c) < s.len() ==> s[find_char(s, pos, c)] == c,
        forall|k: int| pos <= k < find_char(s, pos, c) ==> s[k] != c,
    decreases s.len() - pos,
{
    if pos < s.len() && s[pos] != c {
        lemma_find_char(s, pos + 1, c);
    }
}

/// The leading white space at `pos` changes nothing of what is read.
pub proof fn lemma_scan_skips_spaces(s: Seq<char>, pos: int, open: Seq<Seq<char>>)
    requires
        0 <= pos,
    ensures
        scan(s, pos, open) == scan(s, skip_spaces(s, pos), open),
{
    lemma_skip_spaces(s, pos);
}

/// The entries of a document after `key` is set to `value`: the value of
/// the entry with that key is replaced, or a new entry is added at the end.
pub open spec fn put(entries: Seq<Entry>, key: Seq<char>, value: Seq<char>) -> Seq<Entry>
    decreases entries.len(),
{
    if entries.len() == 0 {
        seq![(key, value)]
    } else if entries[0].0 == key {
        seq![(key, value)] + entries.drop_first()
    } else {
        seq![entries[0]] + put(entries.drop_first(), key, value)
    }
}

/// The entries of a document that held `base` after each of `assigned` is
/// set in turn.
pub open spec fn settle(base: Seq<Entry>, assigned: Seq<Entry>) -> Seq<Entry>
    decreases assigned.len(),
{
    if assigned.len() == 0 {
        base
    } else {
        put(settle(base, assigned.drop_last()), assigned.last().0, assigned.last().1)
    }
}

/// The value of the first entry with the key `key`.
pub open spec fn lookup(entries: Seq<Entry>, key: Seq<char>) -> Option<Seq<char>>
    decreases entries.len(),
{
    if entries.len() == 0 {
        None
    } else if entries[0].0 == key {
        Some(entries[0].1)
    } else {
        lookup(entries.drop_first(), key)
    }
}

/// The value of the last assignment to `key`.
pub open spec fn last_value(assigned: Seq<Entry>, key: Seq<char>) -> Option<Seq<char>>
    decreases assigned.len(),
{
    if assigned.len() == 0 {
        None
    } else if assigned.last().0 == key {
        Some(assigned.last().1)
    } else {
        last_value(assigned.drop_last(), key)
    }
}

/// Whether no two entries have the same key.
pub open spec fn distinct_keys(entries: Seq<Entry>) -> bool {
    forall|i: int, j: int| 0 <= i < j < entries.len() ==> entries[i].0 != entries[j].0
}

/// Setting a key keeps the keys distinct, leaves every other key as it
/// was, and makes the new value the one that is found.
pub proof fn lemma_put(entries: Seq<Entry>, key: Seq<char>, value: Seq<char>)
    ensures
        lookup(put(entries, key, value), key) == Some(value),
        forall|other: Seq<char>|
            other != key ==> #[trigger] lookup(put(entries, key, value), other) == lookup(
                entries,
                other,
            ),
        distinct_keys(entries) ==> distinct_keys(put(entries, key, value)),
        put(entries, key, value).len() == entries.len() + (if lookup(entries, key) is Some {
            0int
        } else {
            1int
        }),
        forall|i: int|
            0 <= i < entries.len() ==> (#[trigger] put(entries, key, value)[i]).0 == entries[i].0,
    decreases entries.len(),
{
    let after = put(entries, key, value);
    if entries.len() == 0 {
        assert forall|other: Seq<char>| other != key implies lookup(after, other) == lookup(
            entries,
            other,
        ) by {
            assert(lookup(after.drop_first(), other) is None);
        }
    } else if entries[0].0 == key {
        assert(after.drop_first() =~= entries.drop_first());
    } else {
        let rest = entries.drop_first();
        let after_rest = put(rest, key, value);
        lemma_put(rest, key, value);
        lemma_put_appends(rest, key, value);
        assert(after.drop_first() =~= after_rest);
        assert forall|other: Seq<char>| other != key implies lookup(after, other) == lookup(
            entries,
            other,
        ) by {
            assert(lookup(after_rest, other) == lookup(rest, other));
        }
        assert forall|i: int| 0 <= i < entries.len() implies (#[trigger] after[i]).0
            == entries[i].0 by {
            if i > 0 {
                assert(after[i] == after_rest[i - 1]);
                assert(entries[i] == rest[i - 1]);
            }
        }
        if distinct_keys(entries) {
            assert forall|i: int, j: int| 0 <= i < j < rest.len() implies rest[i].0
                != rest[j].0 by {
                assert(rest[i] == entries[i + 1]);
                assert(rest[j] == entries[j + 1]);
            }
            assert forall|i: int, j: int| 0 <= i < j < after.len() implies after[i].0
                != after[j].0 by {
                assert(after[j] == after_rest[j - 1]);
                if i > 0 {
                    assert(after[i] == after_rest[i - 1]);
                }
            }
        }
    }
}

/// An entry that `put` adds beyond the old ones holds the new key.
proof fn lemma_put_appends(entries: Seq<Entry>, key: Seq<char>, value: Seq<char>)
    ensures
        forall|i: int|
            entries.len() <= i < put(entries, key, value).len() ==> (#[trigger] put(
                entries,
                key,
                value,
            )[i]).0 == key,
    decreases entries.len(),
{
    let after = put(entries, key, value);
    if entries.len() > 0 && entries[0].0 != key {
        let after_rest = put(entries.drop_first(), key, value);
        lemma_put_appends(entries.drop_first(), key, value);
        assert forall|i: int| entries.len() <= i < after.len() implies (#[trigger] after[i]).0
            == key by {
            assert(after[i] == after_rest[i - 1]);
        }
    }
}

/// A document built from nothing by assignments has distinct keys, and
/// under each key the value of the last assignment to it: the last write
/// wins, and a key that was never assigned is absent.
pub proof fn lemma_last_write_wins(assigned: Seq<Entry>, key: Seq<char>)
    ensures
        distinct_keys(settle(Seq::empty(), assigned)),
        lookup(settle(Seq::empty(), assigned), key) == last_value(assigned, key),
    decreases assigned.len(),
{
    if assigned.len() > 0 {
        lemma_last_write_wins(assigned.drop_last(), key);
        lemma_put(settle(Seq::empty(), assigned.drop_last()), assigned.last().0, assigned.last().1);
    }
}

/// Of two assignments to one key the later one is kept: where `assigned[at]`
/// is the last assignment to its key, the document holds its value.
pub proof fn lemma_duplicate_key_keeps_last(assigned: Seq<Entry>, at: int)
    requires
        0 <= at < assigned.len(),
        forall|later: int| at < later < assigned.len() ==> assigned[later].0 != assigned[at].0,
    ensures
        lookup(settle(Seq::empty(), assigned), assigned[at].0) == Some(assigned[at].1),
    decreases assigned.len(),
{
    let key = assigned[at].0;
    lemma_last_write_wins(assigned, key);
    if at < assigned.len() - 1 {
        let front = assigned.drop_last();
        lemma_duplicate_key_keeps_last(front, at);
        lemma_last_write_wins(front, key);
    }
}

/// A flattened key/value document: dotted keys, each with one value.
pub struct Document {
    entries: Vec<(String, String)>,
}

impl View for Document {
    type V = Seq<Entry>;

    /// The entries, each key with its value, in the order in which the keys
    /// were first set.
    closed spec fn view(&self) -> Seq<Entry> {
        self.entries@.map_values(|e: (String, String)| (e.0@, e.1@))
    }
}

impl Document {
    /// No key occurs twice.
    pub open spec fn wf(&self) -> bool {
        distinct_keys(self@)
    }

    /// The value under `key`, if the document has that key.
    pub open spec fn value_of(&self, key: Seq<char>) -> Option<Seq<char>> {
        lookup(self@, key)
    }

    /// A document without entries.
    pub fn new() -> (doc: Document)
        ensures
            doc@ == Seq::<Entry>::empty(),
            doc.wf(),
    {
        let doc = Document { entries: Vec::new() };
        doc
    }

    /// The number of entries.
    pub fn len(&self) -> (n: usize)
        ensures
            n == self@.len(),
    {
        self.entries.len()
    }

    /// The key of the entry at `index`.
    pub fn key_at(&self, index: usize) -> (key: &String)
        requires
            index < self@.len(),
        ensures
            key@ == self@[index as int].0,
    {
        &self.entries[index].0
    }

    /// The value of the entry at `index`.
    pub fn value_at(&self, index: usize) -> (value: &String)
        requires
            index < self@.len(),
        ensures
            value@ == self@[index as int].1,
    {
        &self.entries[index].1
    }

    /// The position of the entry with the key `key`.
    fn position(&self, key: &String) -> (found: Option<usize>)
        ensures
            match found {
                Some(at) => {
                    &&& at < self@.len()
                    &&& self@[at as int].0 == key@
                    &&& forall|k: int| 0 <= k < at ==> self@[k].0 != key@
                },
                None => forall|k: int| 0 <= k < self@.len() ==> self@[k].0 != key@,
            },
    {
        let mut at: usize = 0;
        while at < self.entries.len()
            invariant
                at <= self.entries.len(),
                forall|k: int| 0 <= k < at ==> self@[k].0 != key@,
            decreases self.entries.len() - at,
        {
            if self.entries[at].0 == *key {
                return Some(at);
            }
            at += 1;
        }
        None
    }

    /// The value under `key`, if the document has that key.
    pub fn get(&self, key: &str) -> (value: Option<String>)
        ensures
            match value {
                Some(v) => self.value_of(key@) == Some(v@),
                None => self.value_of(key@) is None,
            },
    {
        let owned = key.to_owned();
        match self.position(&owned) {
            Some(at) => {
                proof {
                    lemma_lookup_at(self@, key@, at as int);
                }
                Some(self.entries[at].1.clone())
            },
            None => {
                proof {
                    lemma_lookup_none(self@, key@);
                }
                None
            },
        }
    }

    /// Sets `key` to `value`: the last write wins.
    pub fn insert(&mut self, key: String, value: String)
        ensures
            final(self)@ == put(old(self)@, key@, value@),
            old(self).wf() ==> final(self).wf(),
    {
        proof {
            lemma_put(self@, key@, value@);
        }
        match self.position(&key) {
            Some(at) => {
                proof {
                    lemma_put_at(self@, key@, value@, at as int);
                }
                self.entries.set(at, (key, value));
                assert(self@ =~= old(self)@.update(at as int, (key@, value@)));
            },
            None => {
                proof {
                    lemma_put_new(self@, key@, value@);
                }
                self.entries.push((key, value));
            },
        }
    }
}

/// Where `at` is the first entry with the key, `lookup` finds its value.
proof fn lemma_lookup_at(entries: Seq<Entry>, key: Seq<char>, at: int)
    requires
        0 <= at < entries.len(),
        entries[at].0 == key,
        forall|k: int| 0 <= k < at ==> entries[k].0 != key,
    ensures
        lookup(entries, key) == Some(entries[at].1),
    decreases entries.len(),
{
    if at > 0 {
        let rest = entries.drop_first();
        assert forall|k: int| 0 <= k < at - 1 implies rest[k].0 != key by {
            assert(rest[k] == entries[k + 1]);
        }
        lemma_lookup_at(rest, key, at - 1);
    }
}

/// Where no entry has the key, `lookup` finds nothing.
proof fn lemma_lookup_none(entries: Seq<Entry>, key: Seq<char>)
    requires
        forall|k: int| 0 <= k < entries.len() ==> entries[k].0 != key,
    ensures
        lookup(entries, key) is None,
    decreases entries.len(),
{
    if entries.len() > 0 {
        let rest = entries.drop_first();
        assert forall|k: int| 0 <= k < rest.len() implies rest[k].0 != key by {
            assert(rest[k] == entries[k + 1]);
        }
        lemma_lookup_none(rest, key);
    }
}

/// Where `at` is the first entry with the key, `put` replaces that entry.
proof fn lemma_put_at(entries: Seq<Entry>, key: Seq<char>, value: Seq<char>, at: int)
    requires
        0 <= at < entries.len(),
        entries[at].0 == key,
        forall|k: int| 0 <= k < at ==> entries[k].0 != key,
    ensures
        put(entries, key, value) == entries.update(at, (key, value)),
    decreases entries.len(),
{
    if at > 0 {
        let rest = entries.drop_first();
        assert forall|k: int| 0 <= k < at - 1 implies rest[k].0 != key by {
            assert(rest[k] == entries[k + 1]);
        }
        lemma_put_at(rest, key, value, at - 1);
    }
    assert(put(entries, key, value) =~= entries.update(at, (key, value)));
}

/// Where no entry has the key, `put` adds an entry at the end.
proof fn lemma_put_new(entries: Seq<Entry>, key: Seq<char>, value: Seq<char>)
    requires
        forall|k: int| 0 <= k < entries.len() ==> entries[k].0 != key,
    ensures
        put(entries, key, value) == entries.push((key, value)),
    decreases entries.len(),
{
    if entries.len() > 0 {
        let rest = entries.drop_first();
        assert forall|k: int| 0 <= k < rest.len() implies rest[k].0 != key by {
            assert(rest[k] == entries[k + 1]);
        }
        lemma_put_new(rest, key, value);
    }
    assert(put(entries, key, value) =~= entries.push((key, value)));
}

/// Assigning `first` and then `second` is assigning the two in a row.
pub proof fn lemma_settle_in_turn(base: Seq<Entry>, first: Seq<Entry>, second: Seq<Entry>)
    ensures
        settle(settle(base, first), second) == settle(base, first + second),
    decreases second.len(),
{
    if second.len() == 0 {
        assert(first + second =~= first);
    } else {
        lemma_settle_in_turn(base, first, second.drop_last());
        assert((first + second).drop_last() =~= first + second.drop_last());
    }
}

/// The flattened keys of the open blocks, from the vectors that hold them.
pub open spec fn keys_of(open: Seq<Vec<char>>) -> Seq<Seq<char>> {
    open.map_values(|key: Vec<char>| key@)
}

/// Whether `c` is white space.
fn is_whitespace(c: char) -> (space: bool)
    ensures
        space == is_space(c),
{
    let n: u32 = c as u32;
    (0x09 <= n && n <= 0x0D) || n == 0x20 || n == 0x85 || n == 0xA0 || n == 0x1680 || (0x2000 <= n
        && n <= 0x200A) || n == 0x2028 || n == 0x2029 || n == 0x202F || n == 0x205F || n == 0x3000
}

/// The entries of the document that the text `s` holds.
pub open spec fn document_of(s: Seq<char>) -> Seq<Entry> {
    settle(Seq::empty(), assignments(s))
}

/// The entries of the document in the file at `path`: none where the file
/// is missing or cannot be read.
pub open spec fn document_at(disk: Disk, path: Seq<char>) -> Seq<Entry> {
    if !disk.has(path) {
        Seq::empty()
    } else {
        match disk.text(path) {
            Some(text) => document_of(text),
            None => Seq::empty(),
        }
    }
}

/// The parser of the key/value format.
pub struct VdfParser;

impl VdfParser {
    /// Reads the file at `path` into a document. A file that is missing or
    /// cannot be read gives the empty document, never a failure.
    pub fn parse_file(disk: &Disk, path: &str) -> (doc: Document)
        ensures
            doc.wf(),
            doc@ == document_at(*disk, path@),
            !disk.has(path@) ==> doc@ == Seq::<Entry>::empty(),
    {
        if !disk.is_present(path) {
            return Document::new();
        }
        match disk.read_to_string(path) {
            Some(text) => Self::parse(text.as_str()),
            None => Document::new(),
        }
    }

    /// Reads `content` into a document: each assignment of the text is set
    /// in source order, so that of two assignments to one key the later
    /// one stays.
    pub fn parse(content: &str) -> (doc: Document)
        ensures
            doc.wf(),
            doc@ == document_of(content@),
    {
        let chars = chars_with_room(content);
        let mut doc = Document::new();
        Self::parse_blocks(&chars, &mut doc);
        doc
    }

    /// Sets every assignment of `chars` in `result`, in source order.
    pub fn parse_blocks(chars: &Vec<char>, result: &mut Document)
        requires
            chars.len() < usize::MAX,
        ensures
            final(result)@ == settle(old(result)@, assignments(chars@)),
            old(result).wf() ==> final(result).wf(),
    {
        let ghost base = result@;
        let ghost mut done: Seq<Entry> = Seq::empty();
        let mut pos: usize = 0;
        let mut open: Vec<Vec<char>> = Vec::new();
        open.push(Vec::new());
        assert(keys_of(open@) =~= seq![Seq::<char>::empty()]);
        while pos < chars.len() && open.len() > 0
            invariant
                pos <= chars.len() + 1,
                chars.len() < usize::MAX,
                old(result).wf() ==> result.wf(),
                assignments(chars@) == done + scan(chars@, pos as int, keys_of(open@)),
                result@ == settle(base, done),
            decreases chars.len() + 1 - pos,
        {
            let ghost start = pos as int;
            let ghost blocks = keys_of(open@);
            Self::skip_whitespace(chars, &mut pos);
            proof {
                lemma_skip_spaces(chars@, start);
                lemma_scan_skips_spaces(chars@, start, blocks);
            }
            if pos < chars.len() {
                if Self::skip_comment(chars, &mut pos) {
                    proof {
                        lemma_find_char(chars@, skip_spaces(chars@, start), '\n');
                    }
                } else if Self::handle_closing_brace(chars, &mut pos) {
                    open.pop();
                    assert(keys_of(open@) =~= blocks.drop_last());
                } else if Self::handle_opening_brace(chars, &mut pos) {
                } else if chars[pos] == '"' {
                    let ghost step = key_step(chars@, pos as int, blocks);
                    proof {
                        lemma_key_step(chars@, pos as int, blocks);
                    }
                    Self::parse_key_value(chars, &mut pos, result, &mut open);
                    proof {
                        let assigned = match step.assigned {
                            Some(entry) => seq![entry],
                            None => Seq::empty(),
                        };
                        assert(settle(settle(base, done), assigned) == result@) by {
                            assert(assigned.len() > 0 ==> settle(
                                settle(base, done),
                                assigned.drop_last(),
                            ) == settle(base, done));
                        }
                        lemma_settle_in_turn(base, done, assigned);
                        assert(done + (assigned + scan(chars@, pos as int, keys_of(open@)))
                            =~= (done + assigned) + scan(chars@, pos as int, keys_of(open@)));
                        done = done + assigned;
                    }
                } else {
                    pos += 1;
                }
            }
        }
        assert(scan(chars@, pos as int, keys_of(open@)) =~= Seq::<Entry>::empty());
        assert(done + Seq::<Entry>::empty() =~= done);
    }

    /// Moves `pos` over white space.
    pub fn skip_whitespace(chars: &Vec<char>, pos: &mut usize)
        ensures
            *final(pos) == skip_spaces(chars@, *old(pos) as int),
    {
        while *pos < chars.len() && is_whitespace(chars[*pos])
            invariant
                *old(pos) <= *pos,
                skip_spaces(chars@, *old(pos) as int) == skip_spaces(chars@, *pos as int),
            decreases chars.len() - *pos,
        {
            *pos += 1;
        }
    }

    /// Where a comment starts at `pos`, two slashes, moves `pos` to the
    /// line break that ends the line, or to the end of the text where none
    /// follows, and says so. Else `pos` stays.
    pub fn skip_comment(chars: &Vec<char>, pos: &mut usize) -> (skipped: bool)
        ensures
            skipped == starts_comment(chars@, *old(pos) as int),
            skipped ==> *final(pos) == find_char(chars@, *old(pos) as int, '\n'),
            !skipped ==> *final(pos) == *old(pos),
    {
        if *pos < chars.len() && chars.len() - *pos > 1 && chars[*pos] == '/' && chars[*pos + 1]
            == '/' {
            while *pos < chars.len() && chars[*pos] != '\n'
                invariant
                    *old(pos) <= *pos <= chars.len(),
                    find_char(chars@, *old(pos) as int, '\n') == find_char(
                        chars@,
                        *pos as int,
                        '\n',
                    ),
                decreases chars.len() - *pos,
            {
                *pos += 1;
            }
            return true;
        }
        false
    }

    /// Where a closing brace stands at `pos`, moves `pos` past it and says
    /// so.
    pub fn handle_closing_brace(chars: &Vec<char>, pos: &mut usize) -> (closed: bool)
        requires
            *old(pos) < chars.len(),
        ensures
            closed == (chars@[*old(pos) as int] == '}'),
            *final(pos) == if closed {
                *old(pos) + 1
            } else {
                *old(pos) as int
            },
    {
        if chars[*pos] == '}' {
            *pos += 1;
            return true;
        }
        false
    }

    /// Where an opening brace stands at `pos`, moves `pos` past it and says
    /// so.
    pub fn handle_opening_brace(chars: &Vec<char>, pos: &mut usize) -> (opened: bool)
        requires
            *old(pos) < chars.len(),
        ensures
            opened == (chars@[*old(pos) as int] == '{'),
            *final(pos) == if opened {
                *old(pos) + 1
            } else {
                *old(pos) as int
            },
    {
        if chars[*pos] == '{' {
            *pos += 1;
            return true;
        }
        false
    }

    /// Reads the key whose opening quote stands at `pos` and what follows
    /// it, as `key_step` says: a value, which is set in `result` under the
    /// flattened key, with `pos` then after the value's closing quote; or
    /// an opening brace, which opens a block under that key, with `pos`
    /// then after the brace; or neither, and the key is dropped, with `pos`
    /// at what follows the key and its white space.
    pub fn parse_key_value(
        chars: &Vec<char>,
        pos: &mut usize,
        result: &mut Document,
        open: &mut Vec<Vec<char>>,
    )
        requires
            *old(pos) < chars.len(),
            chars.len() < usize::MAX,
            old(open).len() > 0,
        ensures
            *final(pos) == key_step(chars@, *old(pos) as int, keys_of(old(open)@)).next,
            keys_of(final(open)@) == key_step(chars@, *old(pos) as int, keys_of(old(open)@)).open,
            final(result)@ == match key_step(
                chars@,
                *old(pos) as int,
                keys_of(old(open)@),
            ).assigned {
                Some((key, value)) => put(old(result)@, key, value),
                None => old(result)@,
            },
            old(result).wf() ==> final(result).wf(),
    {
        let ghost blocks = keys_of(open@);
        *pos += 1;
        let key = Self::read_quoted_string(chars, pos);
        Self::skip_whitespace(chars, pos);
        let prefix = &open[open.len() - 1];
        assert(prefix@ == blocks.last());
        if *pos < chars.len() && chars[*pos] == '"' {
            *pos += 1;
            let value = Self::read_quoted_string(chars, pos);
            let full_key = Self::build_key(prefix, &key);
            result.insert(string_from(&full_key), string_from(&value));
        } else if *pos < chars.len() && chars[*pos] == '{' {
            *pos += 1;
            let full_key = Self::build_key(prefix, &key);
            open.push(full_key);
            assert(keys_of(open@) =~= blocks.push(full_key@));
        } else {
            assert(keys_of(open@) =~= blocks);
        }
    }

    /// Reads up to the next quote, or to the end of the text where there
    /// is none, and moves `pos` one past where it stopped: past the closing
    /// quote, or one past the end of the text.
    pub fn read_quoted_string(chars: &Vec<char>, pos: &mut usize) -> (read: Vec<char>)
        requires
            *old(pos) <= chars.len(),
            chars.len() < usize::MAX,
        ensures
            read@ == chars@.subrange(*old(pos) as int, find_char(chars@, *old(pos) as int, '"')),
            *final(pos) == find_char(chars@, *old(pos) as int, '"') + 1,
    {
        let mut read: Vec<char> = Vec::new();
        while *pos < chars.len() && chars[*pos] != '"'
            invariant
                *old(pos) <= *pos <= chars.len(),
                find_char(chars@, *old(pos) as int, '"') == find_char(chars@, *pos as int, '"'),
                read@ == chars@.subrange(*old(pos) as int, *pos as int),
            decreases chars.len() - *pos,
        {
            read.push(chars[*pos]);
            *pos += 1;
            assert(chars@.subrange(*old(pos) as int, *pos as int) =~= chars@.subrange(
                *old(pos) as int,
                *pos - 1,
            ).push(chars@[*pos - 1]));
        }
        *pos += 1;
        read
    }

    /// The key `key` inside the block whose keys are `prefix`.
    pub fn build_key(prefix: &Vec<char>, key: &Vec<char>) -> (full: Vec<char>)
        ensures
            full@ == dotted(prefix@, key@),
    {
        let mut full: Vec<char> = Vec::new();
        if prefix.len() > 0 {
            append_chars(&mut full, prefix);
            full.push('.');
        }
        append_chars(&mut full, key);
        full
    }
}

} // verus!
