//! Characters, words and the two ways of capitalizing names.

use vstd::prelude::*;

verus! {

broadcast use vstd::string::group_string_axioms;

/// Whether Unicode gives `c` the property `White_Space`.
pub uninterp spec fn char_is_whitespace(c: char) -> bool;

/// The uppercase mapping that Unicode gives `c`: one or more characters.
pub uninterp spec fn char_uppercase(c: char) -> Seq<char>;

/// The lowercase form that Unicode gives a whole string.
pub uninterp spec fn str_lowercase(s: Seq<char>) -> Seq<char>;

/// `c` is one of the 128 characters of ASCII.
pub open spec fn is_ascii_char(c: char) -> bool {
    (c as u32) < 128
}

/// Every character of `s` is one of ASCII.
pub open spec fn all_ascii(s: Seq<char>) -> bool {
    forall|i: int| 0 <= i < s.len() ==> is_ascii_char(#[trigger] s[i])
}

/// Whether `c` is whitespace. In ASCII that is the space and the five
/// controls from tab to carriage return; beyond it, what Unicode says.
pub open spec fn is_space(c: char) -> bool {
    if is_ascii_char(c) {
        c == ' ' || 9 <= (c as u32) <= 13
    } else {
        char_is_whitespace(c)
    }
}

/// The uppercase mapping of `c`. In ASCII a small letter has its capital
/// and every other character itself; beyond it, what Unicode says.
pub open spec fn upper(c: char) -> Seq<char> {
    if 'a' <= c <= 'z' {
        seq![((c as u32) - 32) as char]
    } else if is_ascii_char(c) {
        seq![c]
    } else {
        char_uppercase(c)
    }
}

/// An ASCII capital as its small letter, any other character as it is.
pub open spec fn ascii_lower(c: char) -> char {
    if 'A' <= c <= 'Z' {
        ((c as u32) + 32) as char
    } else {
        c
    }
}

/// The lowercase form of a string. A string of ASCII alone has each capital
/// replaced by its small letter; for any other string, what Unicode says.
pub open spec fn lower(s: Seq<char>) -> Seq<char> {
    if all_ascii(s) {
        Seq::new(s.len(), |i: int| ascii_lower(s[i]))
    } else {
        str_lowercase(s)
    }
}

/// `char::is_whitespace` of the standard library: true exactly for the
/// characters with the Unicode property `White_Space`. In ASCII those are the
/// space and the controls from tab to carriage return; of the others nothing
/// is claimed but that the answer depends on the character alone.
pub assume_specification[ char::is_whitespace ](c: char) -> (b: bool)
    ensures
        b == is_space(c),
        !is_ascii_char(c) ==> b == char_is_whitespace(c),
;

/// `String::push` of the standard library appends one character.
pub assume_specification[ String::push ](s: &mut String, c: char)
    ensures
        final(s)@ == old(s)@.push(c),
;

/// `str::to_lowercase` of the standard library returns the lowercase form of
/// the string; it depends on the string alone. In a string of ASCII alone
/// each capital becomes its small letter and nothing else changes.
pub assume_specification[ str::to_lowercase ](s: &str) -> (r: String)
    ensures
        r@ == lower(s@),
        !all_ascii(s@) ==> r@ == str_lowercase(s@),
;

/// `char::to_uppercase` of the standard library, its characters gathered in
/// a string; they depend on `c` alone. An ASCII small letter gives its
/// capital, any other ASCII character itself.
#[verifier::external_body]
fn uppercase_of(c: char) -> (s: String)
    ensures
        s@ == upper(c),
        !is_ascii_char(c) ==> s@ == char_uppercase(c),
{
    c.to_uppercase().collect()
}

/// The characters of a string slice, in order.
pub fn chars_of(s: &str) -> (v: Vec<char>)
    ensures
        v@ == s@,
{
    let mut v: Vec<char> = Vec::new();
    for c in it: s.chars()
        invariant
            it.seq() == s@,
            v@ == s@.take(it.index() as int),
    {
        proof {
            assert(s@.take(it.index() + 1) == s@.take(it.index() as int).push(c));
        }
        v.push(c);
    }
    proof {
        assert(s@.take(s@.len() as int) == s@);
    }
    v
}

/// A string made of the characters `chars[from..to]`.
pub fn string_of(chars: &Vec<char>, from: usize, to: usize) -> (s: String)
    requires
        from <= to <= chars.len(),
    ensures
        s@ == chars@.subrange(from as int, to as int),
{
    let mut s = String::new();
    let mut i: usize = from;
    while i < to
        invariant
            from <= i <= to <= chars.len(),
            s@ == chars@.subrange(from as int, i as int),
        decreases to - i,
    {
        s.push(chars[i]);
        proof {
            assert(chars@.subrange(from as int, i + 1) == chars@.subrange(
                from as int,
                i as int,
            ).push(chars@[i as int]));
        }
        i += 1;
    }
    s
}

/// What separates the words of a name.
#[derive(Debug, Clone, Copy, PartialEq, Eq, Structural)]
pub enum Separator {
    /// Any Unicode whitespace.
    Whitespace,
    /// One of `_`, `-`, `.` and the space.
    Punctuation,
}

/// Whether `c` separates words under `kind`.
pub open spec fn separates(kind: Separator, c: char) -> bool {
    match kind {
        Separator::Whitespace => is_space(c),
        Separator::Punctuation => c == '_' || c == '-' || c == '.' || c == ' ',
    }
}

/// The words of `s`: its maximal runs of characters that are not separators,
/// from left to right.
pub open spec fn words(s: Seq<char>, kind: Separator) -> Seq<Seq<char>>
    decreases s.len(),
{
    if s.len() == 0 {
        Seq::empty()
    } else if separates(kind, s.last()) {
        words(s.drop_last(), kind)
    } else if s.len() >= 2 && !separates(kind, s[s.len() - 2]) {
        let before = words(s.drop_last(), kind);
        before.drop_last().push(before.last().push(s.last()))
    } else {
        words(s.drop_last(), kind).push(seq![s.last()])
    }
}

/// A word with its first character in uppercase and the rest in lowercase.
pub open spec fn capitalized(word: Seq<char>) -> Seq<char> {
    if word.len() == 0 {
        Seq::empty()
    } else {
        upper(word[0]) + lower(word.skip(1))
    }
}

/// A word with its first character in uppercase and the rest as it was.
pub open spec fn first_upper(word: Seq<char>) -> Seq<char> {
    if word.len() == 0 {
        Seq::empty()
    } else {
        upper(word[0]) + word.skip(1)
    }
}

/// The words joined without anything between them, each capitalized; with
/// `lower_rest` the rest of each word is put in lowercase as well.
pub open spec fn joined(ws: Seq<Seq<char>>, lower_rest: bool) -> Seq<char>
    decreases ws.len(),
{
    if ws.len() == 0 {
        Seq::empty()
    } else if lower_rest {
        joined(ws.drop_last(), lower_rest) + capitalized(ws.last())
    } else {
        joined(ws.drop_last(), lower_rest) + first_upper(ws.last())
    }
}

/// `s` in CamelCase: its words, split at `_`, `-`, `.` and the space, each
/// with an uppercase first character and a lowercase rest, joined together.
pub open spec fn camel_case(s: Seq<char>) -> Seq<char> {
    joined(words(s, Separator::Punctuation), true)
}

/// `s` in PascalCase: its words, split at whitespace, each with an uppercase
/// first character, joined together.
pub open spec fn pascal_case(s: Seq<char>) -> Seq<char> {
    joined(words(s, Separator::Whitespace), false)
}

/// Whether `c` separates words under `kind`.
pub fn is_separator(kind: Separator, c: char) -> (b: bool)
    ensures
        b == separates(kind, c),
{
    match kind {
        Separator::Whitespace => c.is_whitespace(),
        Separator::Punctuation => c == '_' || c == '-' || c == '.' || c == ' ',
    }
}

/// Puts one word behind `out`, its first character in uppercase and its rest
/// in lowercase or unchanged.
fn push_word(out: &mut String, chars: &Vec<char>, from: usize, to: usize, lower_rest: bool)
    requires
        from < to <= chars.len(),
    ensures
        final(out)@ == old(out)@ + (if lower_rest {
            capitalized(chars@.subrange(from as int, to as int))
        } else {
            first_upper(chars@.subrange(from as int, to as int))
        }),
{
    let ghost word = chars@.subrange(from as int, to as int);
    let first = uppercase_of(chars[from]);
    let rest = string_of(chars, from + 1, to);
    proof {
        assert(word.skip(1) == chars@.subrange(from + 1, to as int));
        assert(word[0] == chars@[from as int]);
    }
    out.append(first.as_str());
    if lower_rest {
        let lowered = rest.as_str().to_lowercase();
        out.append(lowered.as_str());
    } else {
        out.append(rest.as_str());
    }
    proof {
        let tail = if lower_rest {
            lower(word.skip(1))
        } else {
            word.skip(1)
        };
        assert(final(out)@ == old(out)@ + (upper(word[0]) + tail));
    }
}

/// Joins the capitalized words of `s`.
fn join_words(s: &str, kind: Separator, lower_rest: bool) -> (out: String)
    ensures
        out@ == joined(words(s@, kind), lower_rest),
{
    let chars = chars_of(s);
    let mut out = String::new();
    let mut start: usize = 0;
    let mut i: usize = 0;
    let ghost mut done: Seq<Seq<char>> = Seq::empty();
    while i < chars.len()
        invariant
            start <= i <= chars.len(),
            chars@ == s@,
            out@ == joined(done, lower_rest),
            start < i ==> words(chars@.take(i as int), kind) == done.push(
                chars@.subrange(start as int, i as int),
            ) && !separates(kind, chars@[i - 1]),
            start == i ==> words(chars@.take(i as int), kind) == done && (i > 0 ==> separates(
                kind,
                chars@[i - 1],
            )),
        decreases chars.len() - i,
    {
        let c = chars[i];
        proof {
            let next = chars@.take(i + 1);
            assert(next.drop_last() == chars@.take(i as int));
            assert(next.last() == c);
            if i > 0 {
                assert(next[next.len() - 2] == chars@[i - 1]);
            }
        }
        if is_separator(kind, c) {
            if start < i {
                push_word(&mut out, &chars, start, i, lower_rest);
                proof {
                    let w = chars@.subrange(start as int, i as int);
                    assert(done.push(w).drop_last() == done);
                    done = done.push(w);
                }
            }
            start = i + 1;
        } else {
            proof {
                let w = chars@.subrange(start as int, i as int);
                if start < i {
                    assert(done.push(w).drop_last() == done);
                    assert(w.push(c) == chars@.subrange(start as int, i + 1));
                } else {
                    assert(seq![c] == chars@.subrange(start as int, i + 1));
                }
            }
        }
        i += 1;
    }
    proof {
        assert(chars@.take(chars@.len() as int) == chars@);
    }
    if start < i {
        push_word(&mut out, &chars, start, i, lower_rest);
        proof {
            let w = chars@.subrange(start as int, i as int);
            assert(done.push(w).drop_last() == done);
        }
    }
    out
}

/// Converts a name to CamelCase: splits it at `_`, `-`, `.` and spaces, drops
/// empty parts, gives each part an uppercase first character and a lowercase
/// rest, and joins the parts.
pub fn to_camel_case(s: &str) -> (out: String)
    ensures
        out@ == camel_case(s@),
{
    join_words(s, Separator::Punctuation, true)
}

/// Converts a phrase to PascalCase: splits it at whitespace, gives each word
/// an uppercase first character, and joins the words.
pub fn convert_to_pascal_case(input: &str) -> (out: String)
    ensures
        out@ == pascal_case(input@),
{
    join_words(input, Separator::Whitespace, false)
}

} // verus!
