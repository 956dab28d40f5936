//! The tightest rectangle around the occupied pixels of a stack of frames.

use vstd::prelude::*;
use crate::frame::Frame;

verus! {

/// A rectangle of pixels; all four edges are inclusive.
#[derive(Debug, Clone, Copy)]
pub struct BBox {
    pub left: i32,
    pub top: i32,
    pub right: i32,
    pub bottom: i32,
}

impl BBox {
    /// The rectangle is not empty: no edge lies beyond the opposite one.
    pub open spec fn wf(&self) -> bool {
        self.left <= self.right && self.top <= self.bottom
    }

    /// The pixel (`x`, `y`) lies inside the rectangle.
    pub open spec fn contains(&self, x: int, y: int) -> bool {
        self.left <= x <= self.right && self.top <= y <= self.bottom
    }

    /// The rectangle covering a whole `width` by `height` frame.
    pub open spec fn whole(width: int, height: int) -> BBox {
        BBox { left: 0, top: 0, right: (width - 1) as i32, bottom: (height - 1) as i32 }
    }

    /// The rectangle covering a whole `width` by `height` frame: what stands
    /// in for the box of a stack without any occupied pixel. A frame without
    /// width or height gets the rectangle that the same formula gives, which
    /// holds no pixel.
    pub fn full_frame(width: u32, height: u32) -> (b: BBox)
        requires
            width <= i32::MAX,
            height <= i32::MAX,
        ensures
            b == Self::whole(width as int, height as int),
            width >= 1 && height >= 1 ==> b.wf(),
            b.left == 0,
            b.top == 0,
            b.right == width - 1,
            b.bottom == height - 1,
    {
        BBox { left: 0, top: 0, right: width as i32 - 1, bottom: height as i32 - 1 }
    }
}

/// Every frame is well formed and has the given dimensions.
pub open spec fn frames_sized(frames: Seq<Frame>, width: u32, height: u32) -> bool {
    forall|f: int|
        0 <= f < frames.len() ==> (#[trigger] frames[f]).wf() && frames[f].width == width
            && frames[f].height == height
}

/// Frame `i` is the first that is not well formed or not of the given dimensions.
pub open spec fn is_first_missized(frames: Seq<Frame>, width: u32, height: u32, i: int) -> bool {
    &&& 0 <= i < frames.len()
    &&& !(frames[i].wf() && frames[i].width == width && frames[i].height == height)
    &&& frames_sized(frames.take(i), width, height)
}

/// The first frame that is not well formed or not of the given dimensions,
/// if there is one.
pub fn first_missized(frames: &Vec<Frame>, width: u32, height: u32) -> (r: Option<usize>)
    ensures
        match r {
            Some(i) => is_first_missized(frames@, width, height, i as int),
            None => frames_sized(frames@, width, height),
        },
        r is Some <==> !frames_sized(frames@, width, height),
{
    let mut i: usize = 0;
    while i < frames.len()
        invariant
            i <= frames.len(),
            frames_sized(frames@.take(i as int), width, height),
        decreases frames.len() - i,
    {
        if !frames[i].has_size(width, height) {
            return Some(i);
        }
        proof {
            let next = frames@.take(i + 1);
            assert forall|f: int| 0 <= f < next.len() implies (#[trigger] next[f]).wf()
                && next[f].width == width && next[f].height == height by {
                if f < i {
                    assert(frames@.take(i as int)[f] == next[f]);
                }
            }
        }
        i += 1;
    }
    proof {
        assert(frames@.take(frames@.len() as int) == frames@);
    }
    None
}

/// Some frame of the stack has a pixel that is not fully transparent at (`x`, `y`).
pub open spec fn occupied(frames: Seq<Frame>, x: int, y: int) -> bool {
    exists|f: int| 0 <= f < frames.len() && (#[trigger] frames[f]).occupied(x, y)
}

/// No frame of the stack has any pixel with non-zero alpha.
pub open spec fn all_transparent(frames: Seq<Frame>) -> bool {
    forall|x: int, y: int| !occupied(frames, x, y)
}

/// `b` encloses every occupied pixel of the stack.
pub open spec fn encloses(frames: Seq<Frame>, b: BBox) -> bool {
    forall|x: int, y: int| occupied(frames, x, y) ==> b.contains(x, y)
}

/// Each edge of `b` runs through an occupied pixel, so that none can move inwards.
pub open spec fn touches(frames: Seq<Frame>, b: BBox) -> bool {
    &&& exists|y: int| occupied(frames, b.left as int, y)
    &&& exists|y: int| occupied(frames, b.right as int, y)
    &&& exists|x: int| occupied(frames, x, b.top as int)
    &&& exists|x: int| occupied(frames, x, b.bottom as int)
}

/// `b` is the tightest rectangle around the occupied pixels of the stack.
pub open spec fn is_tight_bbox(frames: Seq<Frame>, b: BBox) -> bool {
    encloses(frames, b) && touches(frames, b)
}

/// Pixel (`x`, `y`) of frame `f` comes before position (`fi`, `xi`, `yi`) in
/// frame-by-frame, row-by-row scanning order.
spec fn scanned(f: int, x: int, y: int, fi: int, xi: int, yi: int) -> bool {
    f < fi || (f == fi && (y < yi || (y == yi && x < xi)))
}

/// The tightest rectangle around every pixel with non-zero alpha in any
/// frame of the stack, or `None` when all frames are fully transparent.
pub fn calculate_tight_bbox(frames: &Vec<Frame>, width: u32, height: u32) -> (r: Option<BBox>)
    requires
        frames_sized(frames@, width, height),
        width <= i32::MAX,
        height <= i32::MAX,
    ensures
        r is None <==> all_transparent(frames@),
        r matches Some(b) ==> is_tight_bbox(frames@, b) && b.wf() && 0 <= b.left && b.right
            < width && 0 <= b.top && b.bottom < height,
{
    let mut min_x: i32 = width as i32;
    let mut min_y: i32 = height as i32;
    let mut max_x: i32 = -1;
    let mut max_y: i32 = -1;
    let ghost mut at_left: (int, int) = (0, 0);
    let ghost mut at_right: (int, int) = (0, 0);
    let ghost mut at_top: (int, int) = (0, 0);
    let ghost mut at_bottom: (int, int) = (0, 0);

    let mut fi: usize = 0;
    while fi < frames.len()
        invariant
            fi <= frames.len(),
            frames_sized(frames@, width, height),
            width <= i32::MAX,
            height <= i32::MAX,
            bbox_progress(
                frames@,
                width,
                height,
                fi as int,
                0,
                0,
                min_x,
                min_y,
                max_x,
                max_y,
                at_left,
                at_right,
                at_top,
                at_bottom,
            ),
        decreases frames.len() - fi,
    {
        let frame = &frames[fi];
        let mut y: u32 = 0;
        while y < height
            invariant
                fi < frames.len(),
                y <= height,
                frame == frames@[fi as int],
                frames_sized(frames@, width, height),
                width <= i32::MAX,
                height <= i32::MAX,
                bbox_progress(
                    frames@,
                    width,
                    height,
                    fi as int,
                    0,
                    y as int,
                    min_x,
                    min_y,
                    max_x,
                    max_y,
                    at_left,
                    at_right,
                    at_top,
                    at_bottom,
                ),
            decreases height - y,
        {
            let mut x: u32 = 0;
            while x < width
                invariant
                    fi < frames.len(),
                    y < height,
                    x <= width,
                    frame == frames@[fi as int],
                    frames_sized(frames@, width, height),
                    width <= i32::MAX,
                    height <= i32::MAX,
                    bbox_progress(
                        frames@,
                        width,
                        height,
                        fi as int,
                        x as int,
                        y as int,
                        min_x,
                        min_y,
                        max_x,
                        max_y,
                        at_left,
                        at_right,
                        at_top,
                        at_bottom,
                    ),
                decreases width - x,
            {
                let k = frame.offset(x, y);
                let alpha = frame.alpha(k);
                if alpha > 0 {
                    let xi = x as i32;
                    let yi = y as i32;
                    assert(frames@[fi as int].occupied(x as int, y as int));
                    assert(occupied(frames@, x as int, y as int));
                    if xi < min_x {
                        min_x = xi;
                        proof {
                            at_left = (fi as int, y as int);
                        }
                    }
                    if yi < min_y {
                        min_y = yi;
                        proof {
                            at_top = (fi as int, x as int);
                        }
                    }
                    if xi > max_x {
                        max_x = xi;
                        proof {
                            at_right = (fi as int, y as int);
                        }
                    }
                    if yi > max_y {
                        max_y = yi;
                        proof {
                            at_bottom = (fi as int, x as int);
                        }
                    }
                }
                x += 1;
            }
            y += 1;
        }
        fi += 1;
    }

    if max_x < 0 {
        proof {
            assert forall|x: int, y: int| !occupied(frames@, x, y) by {
                if occupied(frames@, x, y) {
                    let f = choose|f: int|
                        0 <= f < frames@.len() && (#[trigger] frames@[f]).occupied(x, y);
                    assert(scanned(f, x, y, fi as int, 0, 0));
                }
            }
        }
        return None;
    }
    let b = BBox { left: min_x, top: min_y, right: max_x, bottom: max_y };
    proof {
        assert forall|x: int, y: int| occupied(frames@, x, y) implies b.contains(x, y) by {
            let f = choose|f: int| 0 <= f < frames@.len() && (#[trigger] frames@[f]).occupied(x, y);
            assert(scanned(f, x, y, fi as int, 0, 0));
        }
        assert(frames@[at_left.0].occupied(min_x as int, at_left.1));
        assert(occupied(frames@, b.left as int, at_left.1));
        assert(frames@[at_right.0].occupied(max_x as int, at_right.1));
        assert(occupied(frames@, b.right as int, at_right.1));
        assert(frames@[at_top.0].occupied(at_top.1, min_y as int));
        assert(occupied(frames@, at_top.1, b.top as int));
        assert(frames@[at_bottom.0].occupied(at_bottom.1, max_y as int));
        assert(occupied(frames@, at_bottom.1, b.bottom as int));
        assert(!all_transparent(frames@));
    }
    Some(b)
}

/// A stack of frames has at most one tightest rectangle.
pub proof fn lemma_tight_bbox_unique(frames: Seq<Frame>, a: BBox, b: BBox)
    requires
        is_tight_bbox(frames, a),
        is_tight_bbox(frames, b),
    ensures
        a == b,
{
    let ya = choose|y: int| occupied(frames, a.left as int, y);
    assert(b.contains(a.left as int, ya));
    let yb = choose|y: int| occupied(frames, b.left as int, y);
    assert(a.contains(b.left as int, yb));
    let ya = choose|y: int| occupied(frames, a.right as int, y);
    assert(b.contains(a.right as int, ya));
    let yb = choose|y: int| occupied(frames, b.right as int, y);
    assert(a.contains(b.right as int, yb));
    let xa = choose|x: int| occupied(frames, x, a.top as int);
    assert(b.contains(xa, a.top as int));
    let xb = choose|x: int| occupied(frames, x, b.top as int);
    assert(a.contains(xb, b.top as int));
    let xa = choose|x: int| occupied(frames, x, a.bottom as int);
    assert(b.contains(xa, a.bottom as int));
    let xb = choose|x: int| occupied(frames, x, b.bottom as int);
    assert(a.contains(xb, b.bottom as int));
}

/// A stack without any occupied pixel has no tightest rectangle: the answer
/// for it is no rectangle at all, of whatever size.
pub proof fn lemma_transparent_has_no_box(frames: Seq<Frame>, b: BBox)
    requires
        all_transparent(frames),
    ensures
        !is_tight_bbox(frames, b),
{
}

/// Moving any edge of the tightest rectangle inwards by one pixel leaves an
/// occupied pixel outside.
pub proof fn lemma_tight_bbox_minimal(frames: Seq<Frame>, b: BBox, smaller: BBox)
    requires
        is_tight_bbox(frames, b),
        smaller.left >= b.left,
        smaller.top >= b.top,
        smaller.right <= b.right,
        smaller.bottom <= b.bottom,
        smaller != b,
    ensures
        !encloses(frames, smaller),
{
    if smaller.left > b.left {
        let y = choose|y: int| occupied(frames, b.left as int, y);
        assert(!smaller.contains(b.left as int, y));
    } else if smaller.right < b.right {
        let y = choose|y: int| occupied(frames, b.right as int, y);
        assert(!smaller.contains(b.right as int, y));
    } else if smaller.top > b.top {
        let x = choose|x: int| occupied(frames, x, b.top as int);
        assert(!smaller.contains(x, b.top as int));
    } else {
        let x = choose|x: int| occupied(frames, x, b.bottom as int);
        assert(!smaller.contains(x, b.bottom as int));
    }
}

/// What the scan knows once every pixel before (`fi`, `xi`, `yi`) has been seen:
/// the running extremes bound all occupied pixels seen so far, and each extreme
/// is attained by the occupied pixel recorded for it.
spec fn bbox_progress(
    frames: Seq<Frame>,
    width: u32,
    height: u32,
    fi: int,
    xi: int,
    yi: int,
    min_x: i32,
    min_y: i32,
    max_x: i32,
    max_y: i32,
    at_left: (int, int),
    at_right: (int, int),
    at_top: (int, int),
    at_bottom: (int, int),
) -> bool {
    &&& forall|f: int, x: int, y: int|
        0 <= f < frames.len() && (#[trigger] frames[f].occupied(x, y)) && scanned(
            f,
            x,
            y,
            fi,
            xi,
            yi,
        ) ==> min_x <= x <= max_x && min_y <= y <= max_y
    &&& max_x < 0 ==> min_x == width && min_y == height && max_x == -1 && max_y == -1
    &&& max_x >= 0 ==> {
        &&& 0 <= min_x <= max_x < width
        &&& 0 <= min_y <= max_y < height
        &&& 0 <= at_left.0 < frames.len() && frames[at_left.0].occupied(min_x as int, at_left.1)
        &&& 0 <= at_right.0 < frames.len() && frames[at_right.0].occupied(
            max_x as int,
            at_right.1,
        )
        &&& 0 <= at_top.0 < frames.len() && frames[at_top.0].occupied(at_top.1, min_y as int)
        &&& 0 <= at_bottom.0 < frames.len() && frames[at_bottom.0].occupied(
            at_bottom.1,
            max_y as int,
        )
    }
}

} // verus!
