//! The animation container: an indexed-colour animation written into
//! memory, with a global colour table, a transparency key per frame and an
//! endless repeat.

use vstd::prelude::*;
use crate::frame::{Frame, Rgb};
use crate::indexed::{encode_frame, frame_indices, frame_key, lemma_encodes_indices};
use crate::palette::{flatten, palette_of, Palette};
use crate::bbox::{first_missized, frames_sized, is_first_missized};

verus! {

/// An animation that is being written into memory, held by a `gif::Encoder`
/// over a byte vector.
#[verifier::external_body]
pub struct AnimationWriter {
    inner: gif::Encoder<Vec<u8>>,
}

/// `gif::EncodingError`: why an encoder refused.
#[verifier::external_type_specification]
#[verifier::external_body]
pub struct ExEncodingError(gif::EncodingError);

/// What a viewer does with a frame once its time is over.
#[derive(Debug, Clone, Copy, PartialEq, Eq, Structural)]
pub enum Disposal {
    Any,
    Keep,
    Background,
    Previous,
}

/// The bytes that an encoder has written so far.
pub uninterp spec fn written(enc: AnimationWriter) -> Seq<u8>;

/// Whether an encoder was given a global colour table, so that its frames
/// need none of their own.
pub uninterp spec fn has_table(enc: AnimationWriter) -> bool;

/// The bytes that open an animation of the given size and colour table.
pub uninterp spec fn gif_header(width: u16, height: u16, palette: Seq<u8>) -> Seq<u8>;

/// The bytes of one frame of indexed pixels: its control block, its image
/// descriptor and its compressed pixels.
pub uninterp spec fn gif_frame(
    width: u16,
    height: u16,
    delay: u16,
    disposal: Disposal,
    key: Option<u8>,
    indices: Seq<u8>,
) -> Seq<u8>;

/// The application block that makes an animation repeat without end.
pub open spec fn loop_forever_block() -> Seq<u8> {
    seq![
        0x21u8, 0xFFu8, 0x0Bu8, 0x4Eu8, 0x45u8, 0x54u8, 0x53u8, 0x43u8, 0x41u8, 0x50u8, 0x45u8,
        0x32u8, 0x2Eu8, 0x30u8, 0x03u8, 0x01u8, 0x00u8, 0x00u8, 0x00u8,
    ]
}

/// The byte that ends an animation.
pub const TRAILER: u8 = 0x3B;

/// `gif::Encoder::new` over an empty byte vector. It fails only for a colour
/// table of more than 256 colours; otherwise the encoder has written the
/// header for this size and table, and has a global colour table unless the
/// table given holds no colour.
#[verifier::external_body]
fn encoder_new(width: u16, height: u16, palette: &Vec<u8>) -> (r: Result<
    AnimationWriter,
    gif::EncodingError,
>)
    ensures
        palette@.len() <= 768 ==> r is Ok,
        r matches Ok(enc) ==> written(enc) == gif_header(width, height, palette@),
        r matches Ok(enc) ==> has_table(enc) == (palette@.len() >= 3),
{
    gif::Encoder::new(Vec::new(), width, height, palette.as_slice()).map(
        |inner| AnimationWriter { inner },
    )
}

/// `gif::Encoder::set_repeat` with `gif::Repeat::Infinite`: appends the
/// NETSCAPE2.0 application block with a repeat count of zero.
#[verifier::external_body]
fn encoder_repeat_forever(enc: &mut AnimationWriter) -> (r: Result<(), gif::EncodingError>)
    ensures
        r is Ok,
        written(*final(enc)) == written(*old(enc)) + loop_forever_block(),
        has_table(*final(enc)) == has_table(*old(enc)),
{
    enc.inner.set_repeat(gif::Repeat::Infinite)
}

/// `gif::Frame::from_indexed_pixels`, with delay and disposal set, handed to
/// `gif::Encoder::write_frame`. A frame without a colour table of its own is
/// refused only by an encoder that has no global one; a frame that is taken
/// has its bytes appended, and they depend on what is passed here alone.
/// (Memory that runs out is left aside, here as everywhere.)
#[verifier::external_body]
fn encoder_write_frame(
    enc: &mut AnimationWriter,
    width: u16,
    height: u16,
    delay: u16,
    disposal: Disposal,
    key: Option<u8>,
    indices: &Vec<u8>,
) -> (r: Result<(), gif::EncodingError>)
    requires
        indices@.len() == width as int * height as int,
    ensures
        has_table(*old(enc)) ==> r is Ok,
        has_table(*final(enc)) == has_table(*old(enc)),
        r is Ok ==> written(*final(enc)) == written(*old(enc)) + gif_frame(
            width,
            height,
            delay,
            disposal,
            key,
            indices@,
        ),
{
    let mut frame = gif::Frame::from_indexed_pixels(width, height, indices.as_slice(), key);
    frame.delay = delay;
    frame.dispose = match disposal {
        Disposal::Any => gif::DisposalMethod::Any,
        Disposal::Keep => gif::DisposalMethod::Keep,
        Disposal::Background => gif::DisposalMethod::Background,
        Disposal::Previous => gif::DisposalMethod::Previous,
    };
    enc.inner.write_frame(&frame)
}

/// `gif::Encoder::into_inner`: appends the trailer byte and hands out all
/// that was written.
#[verifier::external_body]
fn encoder_finish(enc: AnimationWriter) -> (r: Result<Vec<u8>, gif::EncodingError>)
    ensures
        r is Ok,
        r matches Ok(bytes) ==> bytes@ == written(enc).push(TRAILER),
{
    enc.inner.into_inner()
}

/// `to_string` of a `gif::EncodingError`.
#[verifier::external_body]
fn encoding_message(e: &gif::EncodingError) -> String {
    e.to_string()
}

/// How long each frame of an animation is shown, in hundredths of a second.
pub const FRAME_DELAY: u16 = 10;

/// Why an animation could not be encoded.
#[derive(Debug)]
pub enum EncodeError {
    /// The width, given here, does not fit the container's 16 bits.
    WidthTooLarge(u32),
    /// The height, given here, does not fit the container's 16 bits.
    HeightTooLarge(u32),
    /// The frame at this position is the first that is not of the given
    /// width and height.
    FrameMismatch(usize),
    /// The container refused what it was given. No stack of frames leads
    /// here: the variant is what an error of the container would be turned into.
    Container(String),
}

/// The bytes of the first `n` frames of an animation over palette `p`. Each
/// is shown for `FRAME_DELAY`, gives way to the background, and declares
/// index 0 transparent if and only if it has a fully transparent pixel.
pub open spec fn frames_bytes(width: u16, height: u16, p: Seq<Rgb>, frames: Seq<Frame>, n: int) -> Seq<
    u8,
>
    decreases n,
{
    if n <= 0 {
        Seq::empty()
    } else {
        frames_bytes(width, height, p, frames, n - 1) + gif_frame(
            width,
            height,
            FRAME_DELAY,
            Disposal::Background,
            frame_key(frames[n - 1]),
            frame_indices(p, frames[n - 1]),
        )
    }
}

/// The endlessly repeating animation of a stack of frames: the header with
/// the stack's palette, the repeat block, the frames in order, the trailer.
pub open spec fn animation_of(frames: Seq<Frame>, width: u16, height: u16) -> Seq<u8> {
    let p = palette_of(frames);
    (gif_header(width, height, flatten(p)) + loop_forever_block() + frames_bytes(
        width,
        height,
        p,
        frames,
        frames.len() as int,
    )).push(TRAILER)
}

/// The colour table has three bytes for each colour.
pub proof fn lemma_flatten_len(p: Seq<Rgb>)
    ensures
        flatten(p).len() == 3 * p.len(),
    decreases p.len(),
{
    if p.len() > 0 {
        lemma_flatten_len(p.drop_last());
    }
}

/// Encodes a stack of frames as an indexed-colour animation that repeats
/// without end: builds the palette of the stack, renders each frame over it,
/// and writes header, repeat block, frames and trailer.
pub fn encode_animation(frames: &Vec<Frame>, width: u32, height: u32) -> (r: Result<
    Vec<u8>,
    EncodeError,
>)
    ensures
        r is Ok <==> width <= 65535 && height <= 65535 && frames_sized(frames@, width, height),
        match r {
            Ok(bytes) => bytes@ == animation_of(frames@, width as u16, height as u16),
            Err(EncodeError::WidthTooLarge(w)) => width > 65535 && w == width,
            Err(EncodeError::HeightTooLarge(h)) => width <= 65535 && height > 65535 && h == height,
            Err(EncodeError::FrameMismatch(i)) => width <= 65535 && height <= 65535
                && is_first_missized(frames@, width, height, i as int),
            Err(e) => !(e is Container),
        },
{
    if width > 65535 {
        return Err(EncodeError::WidthTooLarge(width));
    }
    if height > 65535 {
        return Err(EncodeError::HeightTooLarge(height));
    }
    if let Some(i) = first_missized(frames, width, height) {
        return Err(EncodeError::FrameMismatch(i));
    }
    let w = width as u16;
    let h = height as u16;
    let palette = Palette::build(frames);
    let table = palette.to_bytes();
    proof {
        palette.lemma_valid();
        lemma_flatten_len(palette@);
    }
    let mut enc = match encoder_new(w, h, &table) {
        Ok(enc) => enc,
        Err(e) => {
            return Err(EncodeError::Container(encoding_message(&e)));
        },
    };
    match encoder_repeat_forever(&mut enc) {
        Ok(_) => {},
        Err(e) => {
            return Err(EncodeError::Container(encoding_message(&e)));
        },
    }
    let mut fi: usize = 0;
    while fi < frames.len()
        invariant
            fi <= frames.len(),
            w == width,
            h == height,
            palette.wf(),
            palette@ == palette_of(frames@),
            frames_sized(frames@, width, height),
            has_table(enc),
            written(enc) == gif_header(w, h, flatten(palette@)) + loop_forever_block()
                + frames_bytes(w, h, palette@, frames@, fi as int),
        decreases frames.len() - fi,
    {
        let indexed = encode_frame(&palette, &frames[fi]);
        proof {
            palette.lemma_valid();
            lemma_encodes_indices(palette@, frames@[fi as int], indexed);
        }
        match encoder_write_frame(
            &mut enc,
            w,
            h,
            FRAME_DELAY,
            Disposal::Background,
            indexed.transparent_key(),
            &indexed.indices,
        ) {
            Ok(_) => {},
            Err(e) => {
                return Err(EncodeError::Container(encoding_message(&e)));
            },
        }
        proof {
            let head = gif_header(w, h, flatten(palette@)) + loop_forever_block();
            let sofar = frames_bytes(w, h, palette@, frames@, fi as int);
            let this = gif_frame(
                w,
                h,
                FRAME_DELAY,
                Disposal::Background,
                frame_key(frames@[fi as int]),
                frame_indices(palette@, frames@[fi as int]),
            );
            assert((head + sofar) + this =~= head + (sofar + this));
        }
        fi += 1;
    }
    match encoder_finish(enc) {
        Ok(bytes) => Ok(bytes),
        Err(e) => Err(EncodeError::Container(encoding_message(&e))),
    }
}

} // verus!
