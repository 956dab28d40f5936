//! Reading the sprite editor's report, line by line.

use vstd::prelude::*;
use crate::text::{chars_of, is_space, string_of};

verus! {

/// What one line of the sprite editor's report is.
#[derive(Debug)]
pub enum OutputLine {
    /// The description of an exported sprite sheet: the JSON text behind the marker.
    Export(String),
    /// Anything else worth showing.
    Message,
    /// Nothing but whitespace.
    Blank,
}

/// The marker that opens the description of an exported sprite sheet.
pub open spec fn export_marker() -> Seq<char> {
    "JSON_EXPORT:"@
}

/// `s` begins with `prefix`.
pub open spec fn has_prefix(s: Seq<char>, prefix: Seq<char>) -> bool {
    prefix.len() <= s.len() && s.take(prefix.len() as int) == prefix
}

/// `s` holds nothing but whitespace.
pub open spec fn is_blank(s: Seq<char>) -> bool {
    forall|i: int| 0 <= i < s.len() ==> is_space(#[trigger] s[i])
}

/// Whether `chars` begins with `prefix`.
pub fn starts_with(chars: &Vec<char>, prefix: &Vec<char>) -> (b: bool)
    ensures
        b == has_prefix(chars@, prefix@),
{
    if prefix.len() > chars.len() {
        return false;
    }
    let mut i: usize = 0;
    while i < prefix.len()
        invariant
            i <= prefix.len() <= chars.len(),
            forall|j: int| 0 <= j < i ==> chars@[j] == prefix@[j],
        decreases prefix.len() - i,
    {
        if chars[i] != prefix[i] {
            proof {
                assert(chars@.take(prefix@.len() as int)[i as int] != prefix@[i as int]);
            }
            return false;
        }
        i += 1;
    }
    proof {
        assert(chars@.take(prefix@.len() as int) =~= prefix@);
    }
    true
}

/// Sorts one line of the sprite editor's report: a line that begins with the
/// export marker carries a description, which is handed out as it stands;
/// other lines are messages unless they are blank.
pub fn classify_output_line(line: &str) -> (r: OutputLine)
    ensures
        match r {
            OutputLine::Export(payload) => has_prefix(line@, export_marker()) && payload@
                == line@.skip(export_marker().len() as int),
            OutputLine::Message => !has_prefix(line@, export_marker()) && !is_blank(line@),
            OutputLine::Blank => !has_prefix(line@, export_marker()) && is_blank(line@),
        },
{
    let chars = chars_of(line);
    let marker = chars_of("JSON_EXPORT:");
    if starts_with(&chars, &marker) {
        let payload = string_of(&chars, marker.len(), chars.len());
        proof {
            assert(chars@.subrange(marker@.len() as int, chars@.len() as int) == chars@.skip(
                marker@.len() as int,
            ));
        }
        return OutputLine::Export(payload);
    }
    let mut i: usize = 0;
    while i < chars.len()
        invariant
            i <= chars.len(),
            chars@ == line@,
            !has_prefix(line@, export_marker()),
            forall|j: int| 0 <= j < i ==> is_space(#[trigger] chars@[j]),
        decreases chars.len() - i,
    {
        if !chars[i].is_whitespace() {
            assert(!is_space(line@[i as int]));
            return OutputLine::Message;
        }
        i += 1;
    }
    OutputLine::Blank
}

} // verus!
