//! The shared colour table of an animation: the transparency marker at
//! index 0, then the colours of the opaque pixels in first-seen order, at
//! most 256 entries in all, with exact and nearest-colour lookup.

use vstd::prelude::*;
use std::collections::HashMap;
use crate::frame::{Frame, Rgb};

verus! {

broadcast use vstd::std_specs::hash::group_hash_axioms;

/// The largest colour table an indexed animation can carry.
pub const MAX_COLORS: usize = 256;

/// The colour reserved at index 0 to stand for "no pixel".
pub open spec fn marker() -> Rgb {
    Rgb { r: 1, g: 254, b: 1 }
}

/// The colour reserved at index 0 to stand for "no pixel".
pub fn transparent_marker() -> (c: Rgb)
    ensures
        c == marker(),
{
    Rgb { r: 1, g: 254, b: 1 }
}

/// A colour as one number, red in the high byte.
spec fn pack(c: Rgb) -> u32 {
    (c.r as int * 65536 + c.g as int * 256 + c.b as int) as u32
}

fn pack_rgb(c: Rgb) -> (k: u32)
    ensures
        k == pack(c),
{
    (c.r as u32) * 65536 + (c.g as u32) * 256 + (c.b as u32)
}

proof fn lemma_pack_injective(a: Rgb, b: Rgb)
    requires
        pack(a) == pack(b),
    ensures
        a == b,
{
}

/// Squared Euclidean distance between two colours.
pub open spec fn distance(a: Rgb, b: Rgb) -> int {
    (a.r - b.r) * (a.r - b.r) + (a.g - b.g) * (a.g - b.g) + (a.b - b.b) * (a.b - b.b)
}

/// Squared Euclidean distance between two colours.
pub fn color_distance(a: Rgb, b: Rgb) -> (d: u32)
    ensures
        d == distance(a, b),
{
    let dr: i32 = a.r as i32 - b.r as i32;
    let dg: i32 = a.g as i32 - b.g as i32;
    let db: i32 = a.b as i32 - b.b as i32;
    assert(0 <= dr * dr <= 65025) by (nonlinear_arith)
        requires
            -255 <= dr <= 255,
    ;
    assert(0 <= dg * dg <= 65025) by (nonlinear_arith)
        requires
            -255 <= dg <= 255,
    ;
    assert(0 <= db * db <= 65025) by (nonlinear_arith)
        requires
            -255 <= db <= 255,
    ;
    (dr * dr + dg * dg + db * db) as u32
}

/// The colour list after the first `n` pixels of `frame` have been added to
/// `acc`: an opaque pixel appends its colour unless that colour is the marker
/// or already listed.
pub open spec fn collect_pixels(acc: Seq<Rgb>, frame: Frame, n: int) -> Seq<Rgb>
    decreases n,
{
    if n <= 0 {
        acc
    } else {
        let prev = collect_pixels(acc, frame, n - 1);
        let c = frame.rgb_at(n - 1);
        if frame.alpha_at(n - 1) > 0 && c != marker() && !prev.contains(c) {
            prev.push(c)
        } else {
            prev
        }
    }
}

/// The colour list after the first `k` frames: the marker, then every other
/// colour of an opaque pixel, in the order in which each is first seen.
pub open spec fn collect_frames(frames: Seq<Frame>, k: int) -> Seq<Rgb>
    decreases k,
{
    if k <= 0 {
        seq![marker()]
    } else {
        collect_pixels(collect_frames(frames, k - 1), frames[k - 1], frames[k - 1].pixel_count())
    }
}

/// The palette of a frame stack: the collected colours, cut off after
/// `MAX_COLORS` entries.
pub open spec fn palette_of(frames: Seq<Frame>) -> Seq<Rgb> {
    let all = collect_frames(frames, frames.len() as int);
    if all.len() > MAX_COLORS {
        all.take(MAX_COLORS as int)
    } else {
        all
    }
}

/// The marker comes first and is followed by pairwise different colours, none
/// of them the marker.
pub open spec fn valid_colors(p: Seq<Rgb>) -> bool {
    &&& 1 <= p.len()
    &&& p[0] == marker()
    &&& forall|i: int| 1 <= i < p.len() ==> #[trigger] p[i] != marker()
    &&& forall|i: int, j: int| 1 <= i < j < p.len() ==> #[trigger] p[i] != #[trigger] p[j]
}

/// A colour list that fits an indexed animation.
pub open spec fn valid_palette(p: Seq<Rgb>) -> bool {
    valid_colors(p) && p.len() <= MAX_COLORS
}

/// Entry `i` is an entry for opaque pixels and holds exactly `c`.
pub open spec fn exact_match(p: Seq<Rgb>, c: Rgb, i: int) -> bool {
    1 <= i < p.len() && p[i] == c
}

/// Some entry for opaque pixels holds exactly `c`.
pub open spec fn has_exact(p: Seq<Rgb>, c: Rgb) -> bool {
    exists|i: int| exact_match(p, c, i)
}

/// Entry `i` is the entry for opaque pixels closest to `c`; of several at the
/// same distance it is the first.
pub open spec fn is_nearest(p: Seq<Rgb>, c: Rgb, i: int) -> bool {
    &&& 1 <= i < p.len()
    &&& forall|j: int| 1 <= j < p.len() ==> distance(p[i], c) <= distance(#[trigger] p[j], c)
    &&& forall|j: int| 1 <= j < i ==> distance(#[trigger] p[j], c) > distance(p[i], c)
}

/// `i` is the index that an opaque pixel of colour `c` is given: the entry
/// holding `c` where there is one, else the nearest entry, never entry 0
/// unless the palette has no other.
pub open spec fn is_index_for(p: Seq<Rgb>, c: Rgb, i: int) -> bool {
    if has_exact(p, c) {
        exact_match(p, c, i)
    } else if p.len() > 1 {
        is_nearest(p, c, i)
    } else {
        i == 0
    }
}

/// Pixel `k` of `frame` is not fully transparent and has colour `c`.
pub open spec fn opaque_pixel(frame: Frame, k: int, c: Rgb) -> bool {
    0 <= k < frame.pixel_count() && frame.alpha_at(k) > 0 && frame.rgb_at(k) == c
}

/// Some opaque pixel among the first `n` pixels of `frame` has colour `c`.
pub open spec fn opaque_before(frame: Frame, n: int, c: Rgb) -> bool {
    exists|k: int| 0 <= k < n && #[trigger] opaque_pixel(frame, k, c)
}

/// Some opaque pixel in one of the first `n` frames has colour `c`.
pub open spec fn is_opaque_color_in(frames: Seq<Frame>, n: int, c: Rgb) -> bool {
    exists|f: int, k: int| 0 <= f < n && f < frames.len() && #[trigger] opaque_pixel(frames[f], k, c)
}

/// Some opaque pixel of some frame has colour `c`.
pub open spec fn is_opaque_color(frames: Seq<Frame>, c: Rgb) -> bool {
    is_opaque_color_in(frames, frames.len() as int, c)
}

/// The lookup table knows exactly the entries for opaque pixels.
spec fn table_matches(colors: Seq<Rgb>, table: Map<u32, usize>) -> bool {
    &&& 1 <= colors.len()
    &&& colors[0] == marker()
    &&& forall|i: int|
        1 <= i < colors.len() ==> (#[trigger] colors[i]) != marker() && table.contains_key(
            pack(colors[i]),
        ) && table[pack(colors[i])] == i
    &&& forall|k: u32| #[trigger]
        table.contains_key(k) ==> 1 <= table[k] < colors.len() && pack(colors[table[k] as int])
            == k
}

proof fn lemma_table_gives_valid(colors: Seq<Rgb>, table: Map<u32, usize>)
    requires
        table_matches(colors, table),
    ensures
        valid_colors(colors),
{
}

proof fn lemma_table_membership(colors: Seq<Rgb>, table: Map<u32, usize>, c: Rgb)
    requires
        table_matches(colors, table),
    ensures
        table.contains_key(pack(c)) <==> has_exact(colors, c),
        c != marker() ==> (colors.contains(c) <==> has_exact(colors, c)),
{
    if table.contains_key(pack(c)) {
        let i = table[pack(c)] as int;
        lemma_pack_injective(colors[i], c);
        assert(exact_match(colors, c, i));
    }
    if has_exact(colors, c) {
        let i = choose|i: int| exact_match(colors, c, i);
        assert(table.contains_key(pack(colors[i])));
    }
    if c != marker() && colors.contains(c) {
        let i = choose|i: int| 0 <= i < colors.len() && colors[i] == c;
        assert(exact_match(colors, c, i));
    }
    if has_exact(colors, c) {
        let i = choose|i: int| exact_match(colors, c, i);
        assert(colors[i] == c);
    }
}

/// What adding the first `n` pixels of a frame does to a colour list: it only
/// appends, every colour appended is that of an opaque pixel among them, no
/// colour is appended twice, and afterwards the list holds the colour of each
/// of those opaque pixels, the marker excepted.
pub proof fn lemma_collect_pixels(acc: Seq<Rgb>, frame: Frame, n: int)
    requires
        0 <= n <= frame.pixel_count(),
        valid_colors(acc),
    ensures
        ({
            let r = collect_pixels(acc, frame, n);
            &&& valid_colors(r)
            &&& acc.len() <= r.len()
            &&& forall|i: int| 0 <= i < acc.len() ==> #[trigger] r[i] == acc[i]
            &&& forall|i: int| acc.len() <= i < r.len() ==> opaque_before(frame, n, #[trigger] r[i])
            &&& forall|k: int, c: Rgb|
                0 <= k < n && #[trigger] opaque_pixel(frame, k, c) && c != marker()
                    ==> has_exact(r, c)
        }),
    decreases n,
{
    if n > 0 {
        lemma_collect_pixels(acc, frame, n - 1);
        let prev = collect_pixels(acc, frame, n - 1);
        let r = collect_pixels(acc, frame, n);
        let c = frame.rgb_at(n - 1);
        assert forall|i: int| acc.len() <= i < r.len() implies opaque_before(
            frame,
            n,
            #[trigger] r[i],
        ) by {
            if i < prev.len() {
                assert(opaque_before(frame, n - 1, prev[i]));
                let k = choose|k: int| 0 <= k < n - 1 && #[trigger] opaque_pixel(frame, k, prev[i]);
                assert(opaque_pixel(frame, k, r[i]));
            } else {
                assert(opaque_pixel(frame, n - 1, r[i]));
            }
        }
        assert forall|k: int, d: Rgb|
            0 <= k < n && #[trigger] opaque_pixel(frame, k, d) && d != marker() implies has_exact(
            r,
            d,
        ) by {
            if k < n - 1 {
                assert(has_exact(prev, d));
                let i = choose|i: int| exact_match(prev, d, i);
                assert(exact_match(r, d, i));
            } else if prev.contains(d) {
                let i = choose|i: int| 0 <= i < prev.len() && prev[i] == d;
                assert(exact_match(r, d, i));
            } else {
                assert(exact_match(r, d, r.len() - 1));
            }
        }
        if r.len() > prev.len() {
            assert forall|i: int, j: int| 1 <= i < j < r.len() implies #[trigger] r[i]
                != #[trigger] r[j] by {
                if j == r.len() - 1 {
                    assert(prev[i] == r[i]);
                }
            }
        }
    }
}

/// The colour list collected from the first `n` frames starts with the
/// marker, repeats nothing, holds only colours of opaque pixels of those
/// frames after the marker, and misses none of them but the marker.
pub proof fn lemma_collect_frames(frames: Seq<Frame>, n: int)
    requires
        0 <= n <= frames.len(),
    ensures
        ({
            let r = collect_frames(frames, n);
            &&& valid_colors(r)
            &&& forall|i: int| 1 <= i < r.len() ==> is_opaque_color_in(frames, n, #[trigger] r[i])
            &&& forall|c: Rgb|
                #[trigger] is_opaque_color_in(frames, n, c) && c != marker() ==> has_exact(r, c)
        }),
    decreases n,
{
    if n > 0 {
        lemma_collect_frames(frames, n - 1);
        let prev = collect_frames(frames, n - 1);
        let frame = frames[n - 1];
        let count = frame.pixel_count();
        assert(0 <= count) by (nonlinear_arith)
            requires
                count == frame.width as int * frame.height as int,
                0 <= frame.width,
                0 <= frame.height,
        ;
        lemma_collect_pixels(prev, frame, count);
        let r = collect_frames(frames, n);
        assert forall|i: int| 1 <= i < r.len() implies is_opaque_color_in(
            frames,
            n,
            #[trigger] r[i],
        ) by {
            if i < prev.len() {
                assert(r[i] == prev[i]);
                assert(is_opaque_color_in(frames, n - 1, prev[i]));
                let (f, k) = choose|f: int, k: int|
                    0 <= f < n - 1 && f < frames.len() && #[trigger] opaque_pixel(
                        frames[f],
                        k,
                        prev[i],
                    );
                assert(opaque_pixel(frames[f], k, r[i]));
            } else {
                assert(opaque_before(frame, count, r[i]));
                let k = choose|k: int| 0 <= k < count && #[trigger] opaque_pixel(frame, k, r[i]);
                assert(opaque_pixel(frames[n - 1], k, r[i]));
            }
        }
        assert forall|c: Rgb| #[trigger]
            is_opaque_color_in(frames, n, c) && c != marker() implies has_exact(r, c) by {
            let (f, k) = choose|f: int, k: int|
                0 <= f < n && f < frames.len() && #[trigger] opaque_pixel(frames[f], k, c);
            if f < n - 1 {
                assert(is_opaque_color_in(frames, n - 1, c));
                let i = choose|i: int| exact_match(prev, c, i);
                assert(exact_match(r, c, i));
            }
        }
    }
}

/// The palette of any frame stack has at most `MAX_COLORS` entries, begins
/// with the marker, and lists no colour twice.
pub proof fn lemma_palette_valid(frames: Seq<Frame>)
    ensures
        valid_palette(palette_of(frames)),
        palette_of(frames)[0] == marker(),
        palette_of(frames).len() <= MAX_COLORS,
{
    lemma_collect_frames(frames, frames.len() as int);
    let all = collect_frames(frames, frames.len() as int);
    let p = palette_of(frames);
    assert forall|i: int| 1 <= i < p.len() implies #[trigger] p[i] != marker() by {
        assert(p[i] == all[i]);
    }
    assert forall|i: int, j: int| 1 <= i < j < p.len() implies #[trigger] p[i] != #[trigger] p[j] by {
        assert(p[i] == all[i]);
        assert(p[j] == all[j]);
    }
}

/// Every palette entry behind the marker is the colour of some opaque pixel
/// of the stack.
pub proof fn lemma_palette_sound(frames: Seq<Frame>, i: int)
    requires
        1 <= i < palette_of(frames).len(),
    ensures
        is_opaque_color(frames, palette_of(frames)[i]),
{
    lemma_collect_frames(frames, frames.len() as int);
    let all = collect_frames(frames, frames.len() as int);
    assert(palette_of(frames)[i] == all[i]);
}

/// Where the stack has no more colours than fit, each colour of an opaque
/// pixel has its own palette entry, the marker colour excepted.
pub proof fn lemma_palette_complete(frames: Seq<Frame>, c: Rgb)
    requires
        is_opaque_color(frames, c),
        c != marker(),
        collect_frames(frames, frames.len() as int).len() <= MAX_COLORS,
    ensures
        has_exact(palette_of(frames), c),
{
    lemma_collect_frames(frames, frames.len() as int);
}

/// A shared colour table for one animation. Entry 0 is the transparency
/// marker; the entries after it are the colours that opaque pixels may use.
pub struct Palette {
    colors: Vec<Rgb>,
    lookup: HashMap<u32, usize>,
}

impl View for Palette {
    type V = Seq<Rgb>;

    closed spec fn view(&self) -> Seq<Rgb> {
        self.colors@
    }
}

impl Palette {
    /// The colour list is a valid palette and the lookup table agrees with it.
    pub closed spec fn wf(&self) -> bool {
        valid_palette(self.colors@) && table_matches(self.colors@, self.lookup@)
    }

    /// A well-formed palette has at most `MAX_COLORS` entries, starts with the
    /// marker, and repeats no colour.
    pub proof fn lemma_valid(&self)
        requires
            self.wf(),
        ensures
            valid_palette(self@),
            1 <= self@.len() <= MAX_COLORS,
            self@[0] == marker(),
    {
    }

    /// Builds the palette of a frame stack: collects the colours of all opaque
    /// pixels in first-seen order behind the marker, then drops what does not
    /// fit and makes the lookup table know the surviving colours only.
    pub fn build(frames: &Vec<Frame>) -> (p: Palette)
        requires
            forall|f: int| 0 <= f < frames.len() ==> (#[trigger] frames[f]).wf(),
        ensures
            p.wf(),
            p@ == palette_of(frames@),
    {
        let mut colors: Vec<Rgb> = Vec::new();
        colors.push(transparent_marker());
        let mut seen: HashMap<u32, usize> = HashMap::new();
        let mut fi: usize = 0;
        while fi < frames.len()
            invariant
                fi <= frames.len(),
                forall|f: int| 0 <= f < frames.len() ==> (#[trigger] frames[f]).wf(),
                colors@ == collect_frames(frames@, fi as int),
                table_matches(colors@, seen@),
            decreases frames.len() - fi,
        {
            let frame = &frames[fi];
            let n = frame.len();
            let mut k: usize = 0;
            while k < n
                invariant
                    k <= n,
                    fi < frames.len(),
                    frame == frames@[fi as int],
                    frame.wf(),
                    n == frame.pixel_count(),
                    colors@ == collect_pixels(collect_frames(frames@, fi as int), *frame, k as int),
                    table_matches(colors@, seen@),
                decreases n - k,
            {
                if frame.alpha(k) > 0 {
                    let c = frame.rgb(k);
                    let key = pack_rgb(c);
                    proof {
                        lemma_table_membership(colors@, seen@, c);
                    }
                    if c != transparent_marker() && !seen.contains_key(&key) {
                        let ghost before = colors@;
                        let ghost table = seen@;
                        let at = colors.len();
                        seen.insert(key, at);
                        colors.push(c);
                        proof {
                            assert forall|i: int| 1 <= i < colors@.len() implies (
                            #[trigger] colors@[i]) != marker() && seen@.contains_key(
                                pack(colors@[i]),
                            ) && seen@[pack(colors@[i])] == i by {
                                if i < before.len() {
                                    assert(before[i] == colors@[i]);
                                    assert(table.contains_key(pack(before[i])));
                                }
                            }
                            assert forall|q: u32| #[trigger] seen@.contains_key(q) implies 1
                                <= seen@[q] < colors@.len() && pack(colors@[seen@[q] as int])
                                == q by {
                                if q != key {
                                    assert(table.contains_key(q));
                                    assert(before[table[q] as int] == colors@[table[q] as int]);
                                }
                            }
                        }
                    }
                }
                k += 1;
            }
            fi += 1;
        }
        if colors.len() > MAX_COLORS {
            let ghost all = colors@;
            proof {
                lemma_table_gives_valid(all, seen@);
            }
            colors.truncate(MAX_COLORS);
            seen.clear();
            let mut i: usize = 1;
            while i < colors.len()
                invariant
                    1 <= i <= colors.len(),
                    colors@.len() == MAX_COLORS,
                    all.len() > MAX_COLORS,
                    colors@ == all.take(MAX_COLORS as int),
                    valid_colors(all),
                    forall|j: int|
                        1 <= j < i ==> seen@.contains_key(pack(#[trigger] colors@[j]))
                            && seen@[pack(colors@[j])] == j,
                    forall|q: u32| #[trigger]
                        seen@.contains_key(q) ==> 1 <= seen@[q] < i && pack(
                            colors@[seen@[q] as int],
                        ) == q,
                decreases colors.len() - i,
            {
                let ghost table = seen@;
                let c = colors[i];
                let key = pack_rgb(c);
                seen.insert(key, i);
                proof {
                    assert forall|j: int| 1 <= j < i + 1 implies seen@.contains_key(
                        pack(#[trigger] colors@[j]),
                    ) && seen@[pack(colors@[j])] == j by {
                        if j < i {
                            assert(all[j] == colors@[j]);
                            assert(all[i as int] == colors@[i as int]);
                            if pack(colors@[j]) == key {
                                lemma_pack_injective(colors@[j], c);
                            }
                        }
                    }
                    assert forall|q: u32| #[trigger] seen@.contains_key(q) implies 1 <= seen@[q]
                        < i + 1 && pack(colors@[seen@[q] as int]) == q by {
                        if q != key {
                            assert(table.contains_key(q));
                        }
                    }
                }
                i += 1;
            }
            proof {
                assert forall|j: int| 1 <= j < colors@.len() implies (#[trigger] colors@[j])
                    != marker() by {
                    assert(all[j] == colors@[j]);
                }
                assert forall|a: int, b: int| 1 <= a < b < colors@.len() implies (
                #[trigger] colors@[a]) != (#[trigger] colors@[b]) by {
                    assert(all[a] == colors@[a]);
                    assert(all[b] == colors@[b]);
                }
            }
        } else {
            proof {
                lemma_table_gives_valid(colors@, seen@);
            }
        }
        Palette { colors, lookup: seen }
    }

    /// Number of entries, the marker included.
    pub fn len(&self) -> (n: usize)
        requires
            self.wf(),
        ensures
            n == self@.len(),
            1 <= n <= MAX_COLORS,
    {
        self.colors.len()
    }

    /// The colour at entry `i`.
    pub fn color(&self, i: usize) -> (c: Rgb)
        requires
            self.wf(),
            i < self@.len(),
        ensures
            c == self@[i as int],
    {
        self.colors[i]
    }

    /// The colour table as red, green and blue bytes, entry after entry.
    pub fn to_bytes(&self) -> (bytes: Vec<u8>)
        requires
            self.wf(),
        ensures
            bytes@ == flatten(self@),
    {
        let mut bytes: Vec<u8> = Vec::new();
        let mut i: usize = 0;
        while i < self.colors.len()
            invariant
                i <= self.colors@.len(),
                bytes@ == flatten(self.colors@.take(i as int)),
            decreases self.colors.len() - i,
        {
            let c = self.colors[i];
            proof {
                assert(self.colors@.take(i + 1).drop_last() == self.colors@.take(i as int));
            }
            bytes.push(c.r);
            bytes.push(c.g);
            bytes.push(c.b);
            i += 1;
        }
        proof {
            assert(self.colors@.take(self.colors@.len() as int) == self.colors@);
        }
        bytes
    }

    /// The entry for opaque pixels that holds exactly `c`, if there is one.
    pub fn exact(&self, c: Rgb) -> (r: Option<u8>)
        requires
            self.wf(),
        ensures
            match r {
                Some(i) => exact_match(self@, c, i as int),
                None => !has_exact(self@, c),
            },
    {
        let key = pack_rgb(c);
        proof {
            lemma_table_membership(self.colors@, self.lookup@, c);
        }
        match self.lookup.get(&key) {
            Some(i) => {
                proof {
                    lemma_pack_injective(self.colors@[*i as int], c);
                }
                Some(*i as u8)
            },
            None => None,
        }
    }

    /// The entry for opaque pixels that is closest to `c` by squared distance
    /// in RGB space; the first of several equally close ones.
    pub fn nearest(&self, c: Rgb) -> (i: u8)
        requires
            self.wf(),
            self@.len() > 1,
        ensures
            is_nearest(self@, c, i as int),
    {
        let mut best: usize = 1;
        let mut best_d: u32 = color_distance(self.colors[1], c);
        let mut j: usize = 2;
        while j < self.colors.len()
            invariant
                1 <= best < j <= self.colors@.len() <= MAX_COLORS,
                best_d == distance(self.colors@[best as int], c),
                forall|t: int|
                    1 <= t < j ==> distance(self.colors@[best as int], c) <= distance(
                        #[trigger] self.colors@[t],
                        c,
                    ),
                forall|t: int|
                    1 <= t < best ==> distance(#[trigger] self.colors@[t], c) > distance(
                        self.colors@[best as int],
                        c,
                    ),
            decreases self.colors.len() - j,
        {
            let d = color_distance(self.colors[j], c);
            if d < best_d {
                best = j;
                best_d = d;
            }
            j += 1;
        }
        best as u8
    }

    /// The index given to an opaque pixel of colour `c`: its own entry where
    /// the palette has one; the nearest entry only where it has none.
    pub fn index_of(&self, c: Rgb) -> (i: u8)
        requires
            self.wf(),
        ensures
            is_index_for(self@, c, i as int),
            i < self@.len(),
    {
        match self.exact(c) {
            Some(i) => i,
            None => {
                if self.colors.len() > 1 {
                    self.nearest(c)
                } else {
                    0
                }
            },
        }
    }
}

/// The colours of `p` as a flat run of bytes: red, green, blue of entry 0,
/// then of entry 1, and so on.
pub open spec fn flatten(p: Seq<Rgb>) -> Seq<u8>
    decreases p.len(),
{
    if p.len() == 0 {
        Seq::empty()
    } else {
        flatten(p.drop_last()).push(p.last().r).push(p.last().g).push(p.last().b)
    }
}

} // verus!
