//! Sprite sheets: where the frames lie, and what becomes of them.

use vstd::prelude::*;

verus! {

/// The form in which the frames of one tag are written out.
#[derive(Debug, Clone, Copy, PartialEq, Eq, Structural)]
pub enum OutputKind {
    /// An indexed-colour animation over a shared palette.
    Animation,
    /// One full-colour image, its pixels untouched.
    StillImage,
}

/// An animation needs a shared palette; a single frame keeps its colours.
pub fn output_kind(frame_count: u32) -> (kind: OutputKind)
    ensures
        kind == (if frame_count > 1 {
            OutputKind::Animation
        } else {
            OutputKind::StillImage
        }),
{
    if frame_count > 1 {
        OutputKind::Animation
    } else {
        OutputKind::StillImage
    }
}

/// How many frames fit in one row of a sheet.
pub open spec fn frames_per_row(sheet_width: u32, frame_width: u32) -> int {
    sheet_width as int / frame_width as int
}

/// How many whole frames a sheet holds.
pub open spec fn sheet_capacity(
    sheet_width: u32,
    sheet_height: u32,
    frame_width: u32,
    frame_height: u32,
) -> int {
    frames_per_row(sheet_width, frame_width) * (sheet_height as int / frame_height as int)
}

/// How many frames are taken from a sheet: as many as asked for, unless the
/// sheet holds fewer.
pub open spec fn frames_taken(
    sheet_width: u32,
    sheet_height: u32,
    frame_width: u32,
    frame_height: u32,
    frame_count: usize,
) -> int {
    let capacity = sheet_capacity(sheet_width, sheet_height, frame_width, frame_height);
    if frame_count as int <= capacity {
        frame_count as int
    } else {
        capacity
    }
}

/// The top left corner of frame `i` on a sheet whose frames lie row by row.
pub open spec fn origin_of(i: int, sheet_width: u32, frame_width: u32, frame_height: u32) -> (
    int,
    int,
) {
    let per_row = frames_per_row(sheet_width, frame_width);
    ((i % per_row) * frame_width, (i / per_row) * frame_height)
}

/// The top left corners of the frames on a sprite sheet, row by row from the
/// top, each row from the left. Every frame lies wholly on the sheet.
pub fn frame_origins(
    sheet_width: u32,
    sheet_height: u32,
    frame_width: u32,
    frame_height: u32,
    frame_count: usize,
) -> (origins: Vec<(u32, u32)>)
    requires
        frame_width > 0,
        frame_height > 0,
    ensures
        origins@.len() == frames_taken(
            sheet_width,
            sheet_height,
            frame_width,
            frame_height,
            frame_count,
        ),
        forall|i: int|
            0 <= i < origins@.len() ==> (#[trigger] origins@[i]).0 == origin_of(
                i,
                sheet_width,
                frame_width,
                frame_height,
            ).0 && origins@[i].1 == origin_of(i, sheet_width, frame_width, frame_height).1,
        forall|i: int|
            0 <= i < origins@.len() ==> (#[trigger] origins@[i]).0 + frame_width <= sheet_width
                && origins@[i].1 + frame_height <= sheet_height,
{
    let per_row: u64 = (sheet_width / frame_width) as u64;
    let rows: u64 = (sheet_height / frame_height) as u64;
    assert(per_row * rows <= 0xFFFF_FFFF * 0xFFFF_FFFF) by (nonlinear_arith)
        requires
            0 <= per_row <= 0xFFFF_FFFF,
            0 <= rows <= 0xFFFF_FFFF,
    ;
    assert(0 <= per_row * rows) by (nonlinear_arith)
        requires
            0 <= per_row,
            0 <= rows,
    ;
    let capacity: u64 = per_row * rows;
    let mut origins: Vec<(u32, u32)> = Vec::new();
    let mut i: u64 = 0;
    while i < capacity && origins.len() < frame_count
        invariant
            frame_width > 0,
            frame_height > 0,
            per_row == sheet_width as int / frame_width as int,
            rows == sheet_height as int / frame_height as int,
            capacity == per_row * rows,
            i <= capacity,
            origins@.len() == i,
            i <= frame_count,
            forall|j: int|
                0 <= j < i ==> (#[trigger] origins@[j]).0 == origin_of(
                    j,
                    sheet_width,
                    frame_width,
                    frame_height,
                ).0 && origins@[j].1 == origin_of(j, sheet_width, frame_width, frame_height).1,
            forall|j: int|
                0 <= j < i ==> (#[trigger] origins@[j]).0 + frame_width <= sheet_width
                    && origins@[j].1 + frame_height <= sheet_height,
        decreases capacity - i,
    {
        assert(per_row > 0) by (nonlinear_arith)
            requires
                i < per_row * rows,
                0 <= i,
                0 <= per_row,
                0 <= rows,
        ;
        let col: u64 = i % per_row;
        let row: u64 = i / per_row;
        assert(row < rows) by (nonlinear_arith)
            requires
                i < per_row * rows,
                row == i as int / per_row as int,
                per_row > 0,
                0 <= i,
        ;
        assert(col * frame_width + frame_width <= sheet_width) by (nonlinear_arith)
            requires
                0 <= col < per_row,
                per_row == sheet_width as int / frame_width as int,
                frame_width > 0,
        ;
        assert(row * frame_height + frame_height <= sheet_height) by (nonlinear_arith)
            requires
                0 <= row < rows,
                rows == sheet_height as int / frame_height as int,
                frame_height > 0,
        ;
        assert(0 <= col * frame_width && 0 <= row * frame_height) by (nonlinear_arith)
            requires
                0 <= col,
                0 <= row,
                0 <= frame_width,
                0 <= frame_height,
        ;
        let x: u32 = (col * frame_width as u64) as u32;
        let y: u32 = (row * frame_height as u64) as u32;
        origins.push((x, y));
        i += 1;
    }
    origins
}

} // verus!
