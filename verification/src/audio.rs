//! The parts of the music export that only compute.

use vstd::prelude::*;
use crate::text::{chars_of, convert_to_pascal_case, is_space, pascal_case, string_of};

verus! {

/// The text `s` with every occurrence of `from`, found from the left without
/// overlap, replaced by `to`.
pub uninterp spec fn str_replaced(s: Seq<char>, from: Seq<char>, to: Seq<char>) -> Seq<char>;

/// `str::replace` of the standard library; the result depends on the three
/// texts alone.
#[verifier::external_body]
fn replace_all(s: &str, from: &str, to: &str) -> (r: String)
    ensures
        r@ == str_replaced(s@, from@, to@),
{
    s.replace(from, to)
}

/// Too little sound to cut that much from it.
#[derive(Debug, Clone, Copy, PartialEq, Eq, Structural)]
pub struct TooShort {
    /// How many samples there are.
    pub total: usize,
}

/// A recording can be cut if something is left of it.
pub open spec fn can_trim(total: int, skip_start: int, skip_end: int) -> bool {
    total > skip_start + skip_end
}

/// The samples that are left when `skip_start` samples are cut from the
/// start and `skip_end` from the end. A cut that leaves nothing is refused.
pub fn trim_samples(samples: &Vec<i32>, skip_start: usize, skip_end: usize) -> (r: Result<
    Vec<i32>,
    TooShort,
>)
    ensures
        match r {
            Ok(kept) => can_trim(samples@.len() as int, skip_start as int, skip_end as int)
                && kept@ == samples@.subrange(skip_start as int, samples@.len() - skip_end),
            Err(e) => !can_trim(samples@.len() as int, skip_start as int, skip_end as int)
                && e.total == samples@.len(),
        },
{
    let total = samples.len();
    if skip_start >= total || skip_end >= total - skip_start {
        return Err(TooShort { total });
    }
    let end = total - skip_end;
    let mut kept: Vec<i32> = Vec::new();
    let mut i: usize = skip_start;
    while i < end
        invariant
            skip_start <= i <= end <= samples.len(),
            kept@ == samples@.subrange(skip_start as int, i as int),
        decreases end - i,
    {
        kept.push(samples[i]);
        proof {
            assert(samples@.subrange(skip_start as int, i + 1) == samples@.subrange(
                skip_start as int,
                i as int,
            ).push(samples@[i as int]));
        }
        i += 1;
    }
    Ok(kept)
}

/// What a directory listing says of one entry.
#[derive(Debug, Clone)]
pub struct DirEntryInfo {
    pub name: String,
    pub is_dir: bool,
}

/// The entry is a directory named `music` or `Music`.
pub open spec fn is_music_folder(entry: DirEntryInfo) -> bool {
    entry.is_dir && (entry.name@ == "music"@ || entry.name@ == "Music"@)
}

/// The position of the music folder among the entries of a project folder:
/// the first directory named `music` or `Music`.
pub fn get_music_folder_path(entries: &Vec<DirEntryInfo>) -> (r: Result<usize, String>)
    ensures
        match r {
            Ok(i) => i < entries@.len() && is_music_folder(entries@[i as int]) && forall|j: int|
                0 <= j < i ==> !is_music_folder(#[trigger] entries@[j]),
            Err(e) => e@ == "Music folder was not found"@ && forall|j: int|
                0 <= j < entries@.len() ==> !is_music_folder(#[trigger] entries@[j]),
        },
{
    let lower = "music".to_owned();
    let upper = "Music".to_owned();
    let mut i: usize = 0;
    while i < entries.len()
        invariant
            i <= entries.len(),
            lower@ == "music"@,
            upper@ == "Music"@,
            forall|j: int| 0 <= j < i ==> !is_music_folder(#[trigger] entries@[j]),
        decreases entries.len() - i,
    {
        let entry = &entries[i];
        if entry.is_dir && (entry.name == lower || entry.name == upper) {
            return Ok(i);
        }
        i += 1;
    }
    Err("Music folder was not found".to_owned())
}

/// The name of the game sound made from a recording: `snd`, the recording's
/// file name without `.wav` in PascalCase, and `.ogg`.
pub open spec fn game_music_name(file_name: Seq<char>) -> Seq<char> {
    "snd"@ + pascal_case(str_replaced(file_name, ".wav"@, Seq::empty())) + ".ogg"@
}

/// The file name under which a recording is exported as game music.
pub fn game_music_file_name(file_name: &str) -> (name: String)
    ensures
        name@ == game_music_name(file_name@),
{
    let bare = replace_all(file_name, ".wav", "");
    proof {
        reveal_strlit("");
        assert(""@ =~= Seq::<char>::empty());
    }
    let pascal = convert_to_pascal_case(bare.as_str());
    let mut name = "snd".to_owned();
    name.append(pascal.as_str());
    name.append(".ogg");
    name
}

/// `pattern` stands in `s` at position `at`.
pub open spec fn occurs_at(s: Seq<char>, pattern: Seq<char>, at: int) -> bool {
    0 <= at && at + pattern.len() <= s.len() && s.subrange(at, at + pattern.len()) == pattern
}

/// The first position from `from` on at which `pattern` stands in `s` and
/// ends no later than `to`; `to` itself if there is none.
pub open spec fn next_match(s: Seq<char>, pattern: Seq<char>, from: int, to: int) -> int
    decreases to - from,
{
    if from >= to || from + pattern.len() > to {
        to
    } else if occurs_at(s, pattern, from) {
        from
    } else {
        next_match(s, pattern, from + 1, to)
    }
}

/// The first position from `from` on that holds `c`; the length of `s` if
/// there is none.
pub open spec fn next_char(s: Seq<char>, c: char, from: int) -> int
    decreases s.len() - from,
{
    if from < 0 || from >= s.len() {
        s.len() as int
    } else if s[from] == c {
        from
    } else {
        next_char(s, c, from + 1)
    }
}

/// The first position in `a..b` that holds no whitespace; `b` if there is none.
pub open spec fn skip_space(s: Seq<char>, a: int, b: int) -> int
    decreases b - a,
{
    if a >= b {
        b
    } else if is_space(s[a]) {
        skip_space(s, a + 1, b)
    } else {
        a
    }
}

/// The end of `a..b` once the whitespace at its end is cut off.
pub open spec fn back_space(s: Seq<char>, a: int, b: int) -> int
    decreases b - a,
{
    if a >= b {
        a
    } else if is_space(s[b - 1]) {
        back_space(s, a, b - 1)
    } else {
        b
    }
}

/// The words that open the peak level in an encoder's report.
pub open spec fn volume_marker() -> Seq<char> {
    "max_volume:"@
}

/// The number that an encoder's report gives as peak level, as text: what
/// stands behind the first `max_volume:`, up to the end of the line or the
/// next `max_volume:`, without the whitespace around it and without the `dB`
/// that must end it.
pub open spec fn max_volume_of(report: Seq<char>) -> Option<Seq<char>> {
    let mark = volume_marker();
    let at = next_match(report, mark, 0, report.len() as int);
    if at >= report.len() {
        None
    } else {
        let start = at + mark.len();
        let end = next_match(report, mark, start, next_char(report, '\n', start));
        let a = skip_space(report, start, end);
        let b = back_space(report, a, end);
        if b - a >= 2 && report[b - 2] == 'd' && report[b - 1] == 'B' {
            Some(report.subrange(a, back_space(report, a, b - 2)))
        } else {
            None
        }
    }
}

/// The first position from `from` on at which `pattern` stands and ends no
/// later than `to`; `to` itself if there is none.
pub fn find_match(s: &Vec<char>, pattern: &Vec<char>, from: usize, to: usize) -> (at: usize)
    requires
        from <= to <= s.len(),
    ensures
        at == next_match(s@, pattern@, from as int, to as int),
        from <= at <= to,
        at < to ==> occurs_at(s@, pattern@, at as int) && at + pattern@.len() <= to,
{
    let mut at: usize = from;
    while at < to && pattern.len() <= to - at
        invariant
            from <= at <= to <= s.len(),
            next_match(s@, pattern@, from as int, to as int) == next_match(
                s@,
                pattern@,
                at as int,
                to as int,
            ),
        decreases to - at,
    {
        let mut k: usize = 0;
        while k < pattern.len() && s[at + k] == pattern[k]
            invariant
                k <= pattern.len(),
                at + pattern.len() <= to <= s.len(),
                forall|j: int| 0 <= j < k ==> s@[at + j] == pattern@[j],
            decreases pattern.len() - k,
        {
            k += 1;
        }
        if k == pattern.len() {
            assert(s@.subrange(at as int, at + pattern@.len()) =~= pattern@);
            return at;
        }
        assert(!occurs_at(s@, pattern@, at as int)) by {
            if occurs_at(s@, pattern@, at as int) {
                assert(s@.subrange(at as int, at + pattern@.len())[k as int] == pattern@[k as int]);
            }
        }
        at += 1;
    }
    assert(next_match(s@, pattern@, at as int, to as int) == to);
    to
}

/// The first position from `from` on that holds `c`; the length if there is none.
pub fn find_char(s: &Vec<char>, c: char, from: usize) -> (at: usize)
    requires
        from <= s.len(),
    ensures
        at == next_char(s@, c, from as int),
        from <= at <= s.len(),
{
    let mut at: usize = from;
    while at < s.len() && s[at] != c
        invariant
            from <= at <= s.len(),
            next_char(s@, c, from as int) == next_char(s@, c, at as int),
        decreases s.len() - at,
    {
        at += 1;
    }
    at
}

/// Cuts the whitespace off both ends of `a..b`.
pub fn trim_span(s: &Vec<char>, a: usize, b: usize) -> (r: (usize, usize))
    requires
        a <= b <= s.len(),
    ensures
        r.0 == skip_space(s@, a as int, b as int),
        r.1 == back_space(s@, r.0 as int, b as int),
        a <= r.0 <= r.1 <= b,
        r.0 < b ==> !is_space(s@[r.0 as int]),
{
    let mut lo: usize = a;
    while lo < b && s[lo].is_whitespace()
        invariant
            a <= lo <= b <= s.len(),
            skip_space(s@, a as int, b as int) == skip_space(s@, lo as int, b as int),
        decreases b - lo,
    {
        lo += 1;
    }
    let mut hi: usize = b;
    while lo < hi && s[hi - 1].is_whitespace()
        invariant
            lo <= hi <= b <= s.len(),
            back_space(s@, lo as int, b as int) == back_space(s@, lo as int, hi as int),
        decreases hi - lo,
    {
        hi -= 1;
    }
    (lo, hi)
}

/// Reads the peak level out of an encoder's report, as the text of a number.
pub fn max_volume_text(report: &str) -> (r: Option<String>)
    ensures
        match r {
            Some(text) => max_volume_of(report@) == Some(text@),
            None => max_volume_of(report@) is None,
        },
{
    let chars = chars_of(report);
    let mark = chars_of("max_volume:");
    let at = find_match(&chars, &mark, 0, chars.len());
    if at >= chars.len() {
        return None;
    }
    let start = at + mark.len();
    let line_end = find_char(&chars, '\n', start);
    let end = find_match(&chars, &mark, start, line_end);
    let (a, b) = trim_span(&chars, start, end);
    if b - a >= 2 && chars[b - 2] == 'd' && chars[b - 1] == 'B' {
        let (a2, b2) = trim_span(&chars, a, b - 2);
        proof {
            assert(a2 == a) by {
                if a < b - 2 {
                    assert(!is_space(chars@[a as int]));
                }
            }
        }
        Some(string_of(&chars, a2, b2))
    } else {
        None
    }
}

} // verus!
