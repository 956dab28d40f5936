//! Frames rendered over a palette, pixel by pixel.

use vstd::prelude::*;
use crate::frame::{Frame, Rgb};
use crate::palette::{
    collect_frames, distance, exact_match, has_exact, is_index_for, is_nearest, is_opaque_color,
    lemma_palette_complete, lemma_palette_valid, marker, opaque_pixel, palette_of, valid_palette,
    Palette, MAX_COLORS,
};

verus! {

/// A frame whose pixels are indices into a shared palette.
#[derive(Debug, Clone)]
pub struct IndexedFrame {
    pub width: u32,
    pub height: u32,
    /// One palette index per pixel, in row-major order.
    pub indices: Vec<u8>,
    /// Whether any pixel of the source frame was fully transparent.
    pub has_transparency: bool,
}

/// `i` is the palette index owed to pixel `k` of `frame`: 0 for a fully
/// transparent pixel, else the index of its colour.
pub open spec fn pixel_index_ok(p: Seq<Rgb>, frame: Frame, k: int, i: int) -> bool {
    if frame.alpha_at(k) == 0 {
        i == 0
    } else {
        is_index_for(p, frame.rgb_at(k), i)
    }
}

/// Some pixel among the first `n` of `frame` is fully transparent.
pub open spec fn transparent_before(frame: Frame, n: int) -> bool {
    exists|k: int| 0 <= k < n && #[trigger] frame.alpha_at(k) == 0
}

/// Some pixel of `frame` is fully transparent.
pub open spec fn has_transparent_pixel(frame: Frame) -> bool {
    transparent_before(frame, frame.pixel_count())
}

/// `out` is `frame` rendered over palette `p`.
pub open spec fn encodes(p: Seq<Rgb>, frame: Frame, out: IndexedFrame) -> bool {
    &&& out.width == frame.width
    &&& out.height == frame.height
    &&& out.indices@.len() == frame.pixel_count()
    &&& forall|k: int|
        0 <= k < frame.pixel_count() ==> pixel_index_ok(p, frame, k, #[trigger] out.indices@[k] as int)
    &&& out.has_transparency <==> has_transparent_pixel(frame)
}

impl IndexedFrame {
    /// The index that a viewer must treat as "no pixel" in this frame: 0 where
    /// the frame has a transparent pixel, none otherwise.
    pub open spec fn key(&self) -> Option<u8> {
        if self.has_transparency {
            Some(0u8)
        } else {
            None
        }
    }

    /// The index that a viewer must treat as "no pixel" in this frame.
    pub fn transparent_key(&self) -> (k: Option<u8>)
        ensures
            k == self.key(),
    {
        if self.has_transparency {
            Some(0u8)
        } else {
            None
        }
    }
}

/// Renders one frame over a palette. A fully transparent pixel gets index 0
/// and flags the frame; any other pixel gets the index of its colour.
pub fn encode_frame(palette: &Palette, frame: &Frame) -> (out: IndexedFrame)
    requires
        palette.wf(),
        frame.wf(),
    ensures
        encodes(palette@, *frame, out),
{
    let n = frame.len();
    let mut indices: Vec<u8> = Vec::new();
    let mut has_transparency = false;
    let mut k: usize = 0;
    while k < n
        invariant
            k <= n,
            n == frame.pixel_count(),
            palette.wf(),
            frame.wf(),
            indices@.len() == k,
            forall|j: int|
                0 <= j < k ==> pixel_index_ok(palette@, *frame, j, #[trigger] indices@[j] as int),
            has_transparency <==> transparent_before(*frame, k as int),
        decreases n - k,
    {
        let ghost before = indices@;
        if frame.alpha(k) == 0 {
            indices.push(0);
            has_transparency = true;
        } else {
            let i = palette.index_of(frame.rgb(k));
            indices.push(i);
            proof {
                if transparent_before(*frame, k + 1) {
                    let t = choose|t: int| 0 <= t < k + 1 && #[trigger] frame.alpha_at(t) == 0;
                    assert(t < k);
                }
            }
        }
        proof {
            assert forall|j: int| 0 <= j < k + 1 implies pixel_index_ok(
                palette@,
                *frame,
                j,
                #[trigger] indices@[j] as int,
            ) by {
                if j < k {
                    assert(indices@[j] == before[j]);
                }
            }
        }
        k += 1;
    }
    IndexedFrame { width: frame.width, height: frame.height, indices, has_transparency }
}

/// Renders every frame of a stack over one palette, in order.
pub fn encode_frames(frames: &Vec<Frame>, palette: &Palette) -> (out: Vec<IndexedFrame>)
    requires
        palette.wf(),
        forall|f: int| 0 <= f < frames.len() ==> (#[trigger] frames[f]).wf(),
    ensures
        out@.len() == frames@.len(),
        forall|f: int| 0 <= f < frames.len() ==> encodes(palette@, frames[f], #[trigger] out[f]),
{
    let mut out: Vec<IndexedFrame> = Vec::new();
    let mut fi: usize = 0;
    while fi < frames.len()
        invariant
            fi <= frames.len(),
            palette.wf(),
            forall|f: int| 0 <= f < frames.len() ==> (#[trigger] frames[f]).wf(),
            out@.len() == fi,
            forall|f: int| 0 <= f < fi ==> encodes(palette@, frames[f], #[trigger] out[f]),
        decreases frames.len() - fi,
    {
        let encoded = encode_frame(palette, &frames[fi]);
        out.push(encoded);
        fi += 1;
    }
    out
}

/// No two indices are owed to the same colour: over a valid palette the index
/// of an opaque pixel is determined.
pub proof fn lemma_index_unique(p: Seq<Rgb>, c: Rgb, i: int, j: int)
    requires
        valid_palette(p),
        is_index_for(p, c, i),
        is_index_for(p, c, j),
    ensures
        i == j,
{
    if has_exact(p, c) {
        if i < j {
            assert(p[i] != p[j]);
        } else if j < i {
            assert(p[j] != p[i]);
        }
    } else if p.len() > 1 {
        if i < j {
            assert(distance(p[i], c) > distance(p[j], c));
            assert(distance(p[i], c) <= distance(p[j], c));
        } else if j < i {
            assert(distance(p[j], c) > distance(p[i], c));
            assert(distance(p[j], c) <= distance(p[i], c));
        }
    }
}

/// The index of an opaque pixel of colour `c` over palette `p`.
pub open spec fn index_for(p: Seq<Rgb>, c: Rgb) -> int {
    choose|i: int| is_index_for(p, c, i)
}

/// The palette indices of all pixels of `frame` over palette `p`, in
/// row-major order.
pub open spec fn frame_indices(p: Seq<Rgb>, frame: Frame) -> Seq<u8> {
    Seq::new(
        frame.pixel_count() as nat,
        |k: int|
            if frame.alpha_at(k) == 0 {
                0u8
            } else {
                index_for(p, frame.rgb_at(k)) as u8
            },
    )
}

/// The transparency key of `frame` in an animation: index 0 where the frame
/// has a fully transparent pixel, none otherwise.
pub open spec fn frame_key(frame: Frame) -> Option<u8> {
    if has_transparent_pixel(frame) {
        Some(0u8)
    } else {
        None
    }
}

/// A frame rendered over a valid palette holds the indices that the palette
/// determines, and no others.
pub proof fn lemma_encodes_indices(p: Seq<Rgb>, frame: Frame, out: IndexedFrame)
    requires
        valid_palette(p),
        encodes(p, frame, out),
    ensures
        out.indices@ == frame_indices(p, frame),
        out.key() == frame_key(frame),
{
    let expected = frame_indices(p, frame);
    assert(0 <= frame.pixel_count()) by (nonlinear_arith)
        requires
            frame.pixel_count() == frame.width as int * frame.height as int,
            0 <= frame.width,
            0 <= frame.height,
    ;
    assert forall|k: int| 0 <= k < frame.pixel_count() implies out.indices@[k] == expected[k] by {
        assert(pixel_index_ok(p, frame, k, out.indices@[k] as int));
        if frame.alpha_at(k) != 0 {
            let c = frame.rgb_at(k);
            lemma_index_unique(p, c, out.indices@[k] as int, index_for(p, c));
        }
    }
    assert(out.indices@ =~= expected);
}

/// Looking an index up yields the pixel's colour again or, only where the
/// palette has no entry for that colour, the entry closest to it: no other
/// entry behind the marker is closer, and none before it is as close. Entry 0
/// is given to an opaque pixel only by a palette that has no other entry.
pub proof fn lemma_index_round_trip(p: Seq<Rgb>, c: Rgb, i: int)
    requires
        valid_palette(p),
        is_index_for(p, c, i),
    ensures
        0 <= i < p.len(),
        p[i] == c || (!has_exact(p, c) && is_nearest(p, c, i)) || (p.len() == 1 && i == 0),
        p.len() > 1 ==> i >= 1,
{
}

/// Rendered over the palette built from its own stack, every opaque pixel
/// gets an index behind which stands its exact colour or, where that colour
/// did not survive, the nearest colour that did.
pub proof fn lemma_quantization_round_trip(frames: Seq<Frame>, f: int, k: int, i: int)
    requires
        0 <= f < frames.len(),
        0 <= k < frames[f].pixel_count(),
        frames[f].alpha_at(k) > 0,
        pixel_index_ok(palette_of(frames), frames[f], k, i),
    ensures
        0 <= i < palette_of(frames).len(),
        palette_of(frames)[i] == frames[f].rgb_at(k) || is_nearest(
            palette_of(frames),
            frames[f].rgb_at(k),
            i,
        ),
{
    let p = palette_of(frames);
    let c = frames[f].rgb_at(k);
    lemma_palette_valid(frames);
    lemma_index_round_trip(p, c, i);
    if p.len() == 1 && c != marker() {
        assert(opaque_pixel(frames[f], k, c));
        assert(is_opaque_color(frames, c));
        assert(collect_frames(frames, frames.len() as int).len() <= MAX_COLORS);
        lemma_palette_complete(frames, c);
        let j = choose|j: int| exact_match(p, c, j);
        assert(false);
    }
}

} // verus!
