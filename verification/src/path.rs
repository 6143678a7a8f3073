//! File-system paths as text, with `/` as the separator.

use vstd::prelude::*;
use crate::text::{append_chars, chars_of, string_from};

verus! {

/// `part` appended to `base` as a further component. An absolute `part`
/// replaces `base`; otherwise one separator stands between the two, unless
/// `base` is empty or already ends with one.
pub open spec fn joined(base: Seq<char>, part: Seq<char>) -> Seq<char> {
    if part.len() > 0 && part[0] == '/' {
        part
    } else if base.len() == 0 || base.last() == '/' {
        base + part
    } else {
        base + seq!['/'] + part
    }
}

/// `part` appended to `base` as a further component.
pub fn join_chars(base: &Vec<char>, part: &Vec<char>) -> (out: Vec<char>)
    ensures
        out@ == joined(base@, part@),
{
    let mut out: Vec<char> = Vec::new();
    if part.len() > 0 && part[0] == '/' {
        append_chars(&mut out, part);
    } else {
        append_chars(&mut out, base);
        if base.len() > 0 && base[base.len() - 1] != '/' {
            out.push('/');
        }
        append_chars(&mut out, part);
    }
    out
}

/// `part` appended to `base` as a further component.
pub fn join(base: &str, part: &str) -> (out: String)
    ensures
        out@ == joined(base@, part@),
{
    let base_chars = chars_of(base);
    let part_chars = chars_of(part);
    let out = join_chars(&base_chars, &part_chars);
    string_from(&out)
}

} // verus!
