//! Fitting an image under a size limit: the quality ladder for JPEG, and the
//! scale ladder for both JPEG and PNG.
//!
//! Quality and scale are kept in millionths. Every update rounds down, towards
//! the smaller file.

use crate::codec::{decode, decoded, encode, encoded_image, resize, resized_image};
use crate::codec::{Encoding, PixelBuffer, Raster};
use crate::text::{decimal, push_decimal};
use crate::types::{CompressionSettings, ConversionError};
use vstd::prelude::*;

verus! {

/// No rung of the quality ladder lies below this quality.
pub const QUALITY_FLOOR: u8 = 10;

/// The number of millionths in one.
pub const MILLION: u64 = 1_000_000;

/// The quality after `quality`, both in millionths: 85 percent of it, but not
/// less than the floor.
pub open spec fn next_quality(quality: nat) -> nat {
    let lowered = quality * 85 / 100;
    if lowered < QUALITY_FLOOR as nat * MILLION as nat {
        QUALITY_FLOOR as nat * MILLION as nat
    } else {
        lowered
    }
}

/// The quality of rung `step` of the ladder that starts at `initial`, in
/// millionths.
pub open spec fn quality_at(initial: u8, step: nat) -> nat
    decreases step,
{
    if step == 0 {
        initial as nat * MILLION as nat
    } else {
        next_quality(quality_at(initial, (step - 1) as nat))
    }
}

/// The quality that the encoder is given at rung `step`: `quality_at`,
/// rounded down to a whole number.
pub open spec fn rung_quality(initial: u8, step: nat) -> u8 {
    (quality_at(initial, step) / MILLION as nat) as u8
}

/// The scale of rung `step` of the scale ladder, in millionths: nine tenths,
/// then eight tenths of the rung before.
pub open spec fn scale_at(step: nat) -> nat
    decreases step,
{
    if step == 0 {
        900_000
    } else {
        scale_at((step - 1) as nat) * 8 / 10
    }
}

/// `side` scaled by `scale` millionths, rounded down, but at least one pixel.
pub open spec fn scaled_side(side: nat, scale: nat) -> nat {
    let scaled = side * scale / MILLION as nat;
    if scaled < 1 {
        1
    } else {
        scaled
    }
}

/// How fitting an image under a limit ends.
pub enum FitOutcome {
    /// This file fits, or is the best that the quality ladder has.
    Fitted(Seq<u8>),
    /// The codec could not read the source or write a candidate.
    CodecFailed,
    /// The source decodes to an image without pixels.
    NoPixels,
    /// Every rung of the scale ladder gave a file over the limit.
    Exhausted,
}

/// The file at rung `step` of the scale ladder: `source` scaled down, then
/// encoded.
pub open spec fn scale_rung(source: Raster, encoding: Encoding, step: nat) -> Option<Seq<u8>> {
    let width = scaled_side(source.width, scale_at(step)) as u32;
    let height = scaled_side(source.height, scale_at(step)) as u32;
    encoded_image(resized_image(source, width, height), encoding)
}

/// Walks the scale ladder from rung `step`: the first file that fits is the
/// result; a rung that cannot be encoded ends the walk.
pub open spec fn scale_walk(
    source: Raster,
    encoding: Encoding,
    ceiling: u64,
    iterations: u32,
    step: nat,
) -> FitOutcome
    decreases iterations - step,
{
    if step >= iterations {
        FitOutcome::Exhausted
    } else {
        match scale_rung(source, encoding, step) {
            None => FitOutcome::CodecFailed,
            Some(bytes) => if bytes.len() <= ceiling {
                FitOutcome::Fitted(bytes)
            } else {
                scale_walk(source, encoding, ceiling, iterations, step + 1)
            },
        }
    }
}

/// The file at rung `step` of the quality ladder.
pub open spec fn quality_rung(source: Raster, initial: u8, step: nat) -> Option<Seq<u8>> {
    encoded_image(source, Encoding::Jpeg { quality: rung_quality(initial, step) })
}

/// Walks the quality ladder from rung `step`: the first file that fits, or
/// that was made at the floor, is the result. After the last rung the scale
/// ladder follows, at the initial quality.
pub open spec fn quality_walk(
    source: Raster,
    ceiling: u64,
    settings: CompressionSettings,
    step: nat,
) -> FitOutcome
    decreases settings.max_iterations - step,
{
    if step >= settings.max_iterations {
        scale_walk(
            source,
            Encoding::Jpeg { quality: settings.quality },
            ceiling,
            settings.max_iterations,
            0,
        )
    } else {
        match quality_rung(source, settings.quality, step) {
            None => FitOutcome::CodecFailed,
            Some(bytes) => if bytes.len() <= ceiling || rung_quality(settings.quality, step)
                <= QUALITY_FLOOR {
                FitOutcome::Fitted(bytes)
            } else {
                quality_walk(source, ceiling, settings, step + 1)
            },
        }
    }
}

/// How fitting `source` as a JPEG ends.
pub open spec fn jpeg_fit(source: Raster, ceiling: u64, settings: CompressionSettings) -> FitOutcome {
    quality_walk(source, ceiling, settings, 0)
}

/// How fitting `source` as a PNG ends: PNG loses nothing, so the image is
/// encoded once as it is, and scaled down only if that does not fit.
pub open spec fn png_fit(source: Raster, ceiling: u64, settings: CompressionSettings) -> FitOutcome {
    match encoded_image(source, Encoding::Png) {
        None => FitOutcome::CodecFailed,
        Some(bytes) => if bytes.len() <= ceiling {
            FitOutcome::Fitted(bytes)
        } else {
            scale_walk(source, Encoding::Png, ceiling, settings.max_iterations, 0)
        },
    }
}

/// How reading `content` ends where it gives no image to work on.
pub open spec fn unreadable(content: Seq<u8>) -> FitOutcome {
    if crate::codec::decoded_image(content) is None {
        FitOutcome::CodecFailed
    } else {
        FitOutcome::NoPixels
    }
}

/// How compressing the image file `content` to a JPEG under `ceiling` ends.
pub open spec fn jpeg_compression(
    content: Seq<u8>,
    ceiling: u64,
    settings: CompressionSettings,
) -> FitOutcome {
    match decoded(content) {
        None => unreadable(content),
        Some(source) => jpeg_fit(source, ceiling, settings),
    }
}

/// How compressing the image file `content` to a PNG under `ceiling` ends.
pub open spec fn png_compression(
    content: Seq<u8>,
    ceiling: u64,
    settings: CompressionSettings,
) -> FitOutcome {
    match decoded(content) {
        None => unreadable(content),
        Some(source) => png_fit(source, ceiling, settings),
    }
}

/// How converting the image file `content` to a JPEG under `ceiling` ends:
/// the image is encoded once at the initial quality, and that file is
/// compressed.
pub open spec fn jpeg_conversion(
    content: Seq<u8>,
    ceiling: u64,
    settings: CompressionSettings,
) -> FitOutcome {
    match decoded(content) {
        None => unreadable(content),
        Some(source) => match encoded_image(source, Encoding::Jpeg { quality: settings.quality }) {
            None => FitOutcome::CodecFailed,
            Some(first) => jpeg_compression(first, ceiling, settings),
        },
    }
}

/// How converting the image file `content` to a PNG under `ceiling` ends.
pub open spec fn png_conversion(
    content: Seq<u8>,
    ceiling: u64,
    settings: CompressionSettings,
) -> FitOutcome {
    match decoded(content) {
        None => unreadable(content),
        Some(source) => match encoded_image(source, Encoding::Png) {
            None => FitOutcome::CodecFailed,
            Some(first) => png_compression(first, ceiling, settings),
        },
    }
}

/// The message of the error that ends an exhausted ladder.
pub open spec fn exhausted_text(kind: Seq<char>, ceiling: u64, iterations: u32) -> Seq<char> {
    "Could not compress "@ + kind + " to "@ + decimal(ceiling as nat) + " bytes after "@ + decimal(
        iterations as nat,
    ) + " iterations"@
}

/// Whether `result` is what a caller gets for `outcome`: the file itself, or
/// the error of its kind.
pub open spec fn reports(
    result: Result<Vec<u8>, ConversionError>,
    outcome: FitOutcome,
    kind: Seq<char>,
    ceiling: u64,
    iterations: u32,
) -> bool {
    match outcome {
        FitOutcome::Fitted(bytes) => result matches Ok(file) && file@ == bytes,
        FitOutcome::CodecFailed => result matches Err(ConversionError::Image(_)),
        FitOutcome::NoPixels => result matches Err(ConversionError::InvalidContent { .. }),
        FitOutcome::Exhausted => result matches Err(ConversionError::CompressionFailed { message })
            && message@ == exhausted_text(kind, ceiling, iterations),
    }
}

/// Whether `n` is the side that is left of `side` when an image of `current`
/// bytes is scaled down to `target` bytes, the bytes going with the area:
/// the largest `n` with `n * n * current <= side * side * target`.
pub open spec fn is_target_side(n: nat, side: nat, current: nat, target: nat) -> bool {
    n * n * current <= side * side * target < (n + 1) * (n + 1) * current
}

/// Whether `out` is the target side for `side`, raised to one pixel where the
/// target side is zero.
pub open spec fn is_target_dimension(out: u32, side: u32, current: u64, target: u64) -> bool {
    if is_target_side(0, side as nat, current as nat, target as nat) {
        out == 1
    } else {
        is_target_side(out as nat, side as nat, current as nat, target as nat)
    }
}

/// There is one target side and no more.
pub proof fn law_target_side_unique(a: nat, b: nat, side: nat, current: nat, target: nat)
    requires
        is_target_side(a, side, current, target),
        is_target_side(b, side, current, target),
    ensures
        a == b,
{
    if a < b {
        assert((a + 1) * (a + 1) * current <= b * b * current) by (nonlinear_arith)
            requires
                a + 1 <= b,
        ;
    }
    if b < a {
        assert((b + 1) * (b + 1) * current <= a * a * current) by (nonlinear_arith)
            requires
                b + 1 <= a,
        ;
    }
}

/// The product of three factors within their machine ranges fits 128 bits.
proof fn lemma_product_fits(a: nat, b: nat, c: nat)
    requires
        a <= 0xffff_ffff,
        b <= 0xffff_ffff,
        c <= 0xffff_ffff_ffff_ffff,
    ensures
        a * b <= 0xffff_ffff * 0xffff_ffff,
        a * b * c <= 0xffff_ffff * 0xffff_ffff * 0xffff_ffff_ffff_ffff,
{
    assert(a * b <= 0xffff_ffff * 0xffff_ffff) by (nonlinear_arith)
        requires
            a <= 0xffff_ffff,
            b <= 0xffff_ffff,
    ;
    let ab = a * b;
    assert(ab * c <= 0xffff_ffff * 0xffff_ffff * 0xffff_ffff_ffff_ffff) by (nonlinear_arith)
        requires
            ab <= 0xffff_ffff * 0xffff_ffff,
            c <= 0xffff_ffff_ffff_ffff,
    ;
}

/// `n * n * factor`, which fits 128 bits.
fn square_times(n: u32, factor: u64) -> (out: u128)
    ensures
        out == n * n * factor,
{
    proof {
        lemma_product_fits(n as nat, n as nat, factor as nat);
    }
    (n as u128) * (n as u128) * (factor as u128)
}

/// Finds the target side by bisection.
fn target_side(side: u32, current: u64, target: u64) -> (n: u32)
    requires
        target < current,
    ensures
        is_target_side(n as nat, side as nat, current as nat, target as nat),
        n <= side,
{
    let goal: u128 = square_times(side, target);
    let mut lo: u32 = 0;
    let mut hi: u32 = side;
    proof {
        let (s, t, c) = (side as nat, target as nat, current as nat);
        let ss = s * s;
        assert(ss * t <= ss * c) by (nonlinear_arith)
            requires
                t < c,
        ;
        assert(ss * c < (s + 1) * (s + 1) * c) by (nonlinear_arith)
            requires
                c > 0,
                ss == s * s,
        ;
    }
    while lo < hi
        invariant
            lo <= hi <= side,
            goal == side * side * target,
            lo * lo * current <= goal,
            goal < (hi + 1) * (hi + 1) * current,
        decreases hi - lo,
    {
        let mid: u32 = lo + 1 + (hi - lo - 1) / 2;
        let reach: u128 = square_times(mid, current);
        if reach <= goal {
            lo = mid;
        } else {
            hi = mid - 1;
        }
    }
    lo
}

/// Whether the files of the scale ladder at the rungs from `from` up to
/// `to` all came out, and all over the limit.
pub open spec fn scale_rungs_over(
    source: Raster,
    encoding: Encoding,
    ceiling: u64,
    from: nat,
    to: nat,
) -> bool {
    forall|j: nat|
        from <= j < to ==> (#[trigger] scale_rung(source, encoding, j) matches Some(file)
            && file.len() > ceiling)
}

/// Whether the files of the quality ladder at the rungs from `from` up to
/// `to` all came out over the limit, at a quality above the floor.
pub open spec fn quality_rungs_over(
    source: Raster,
    ceiling: u64,
    initial: u8,
    from: nat,
    to: nat,
) -> bool {
    forall|j: nat|
        from <= j < to ==> (#[trigger] quality_rung(source, initial, j) matches Some(file)
            && file.len() > ceiling && rung_quality(initial, j) > QUALITY_FLOOR)
}

/// The scale ladder ends with the first file that fits: every rung before
/// it gave a file over the limit. It is exhausted only if every rung did,
/// and it fails only at the first rung that cannot be encoded.
pub proof fn law_scale_walk_first_fit(
    source: Raster,
    encoding: Encoding,
    ceiling: u64,
    iterations: u32,
    step: nat,
)
    ensures
        match scale_walk(source, encoding, ceiling, iterations, step) {
            FitOutcome::Fitted(file) => exists|k: nat|
                step <= k < iterations && #[trigger] scale_rung(source, encoding, k) == Some(file)
                    && file.len() <= ceiling && scale_rungs_over(
                    source,
                    encoding,
                    ceiling,
                    step,
                    k,
                ),
            FitOutcome::Exhausted => scale_rungs_over(
                source,
                encoding,
                ceiling,
                step,
                iterations as nat,
            ),
            FitOutcome::CodecFailed => exists|k: nat|
                step <= k < iterations && #[trigger] scale_rung(source, encoding, k) is None
                    && scale_rungs_over(source, encoding, ceiling, step, k),
            FitOutcome::NoPixels => false,
        },
    decreases iterations - step,
{
    if step < iterations {
        match scale_rung(source, encoding, step) {
            Some(file) => {
                if file.len() > ceiling {
                    law_scale_walk_first_fit(source, encoding, ceiling, iterations, step + 1);
                    match scale_walk(source, encoding, ceiling, iterations, step + 1) {
                        FitOutcome::Fitted(found) => {
                            let k = choose|k: nat|
                                step + 1 <= k < iterations && #[trigger] scale_rung(
                                    source,
                                    encoding,
                                    k,
                                ) == Some(found) && found.len() <= ceiling && scale_rungs_over(
                                    source,
                                    encoding,
                                    ceiling,
                                    step + 1,
                                    k,
                                );
                            assert(scale_rungs_over(source, encoding, ceiling, step, k));
                        },
                        FitOutcome::CodecFailed => {
                            let k = choose|k: nat|
                                step + 1 <= k < iterations && #[trigger] scale_rung(
                                    source,
                                    encoding,
                                    k,
                                ) is None && scale_rungs_over(
                                    source,
                                    encoding,
                                    ceiling,
                                    step + 1,
                                    k,
                                );
                            assert(scale_rungs_over(source, encoding, ceiling, step, k));
                        },
                        _ => {},
                    }
                } else {
                    assert(scale_rungs_over(source, encoding, ceiling, step, step));
                }
            },
            None => {
                assert(scale_rungs_over(source, encoding, ceiling, step, step));
            },
        }
    }
}

/// The quality ladder ends at the first rung whose file fits or was made at
/// the floor; where no rung is such, the scale ladder decides. So a file
/// that is accepted within the limit is the first such file that was met.
pub proof fn law_quality_walk_first_fit(
    source: Raster,
    ceiling: u64,
    settings: CompressionSettings,
    step: nat,
)
    ensures
        ({
            let rungs = settings.max_iterations as nat;
            let after = scale_walk(
                source,
                Encoding::Jpeg { quality: settings.quality },
                ceiling,
                settings.max_iterations,
                0,
            );
            match quality_walk(source, ceiling, settings, step) {
                FitOutcome::Fitted(file) => {
                    ||| exists|k: nat|
                        step <= k < rungs && #[trigger] quality_rung(source, settings.quality, k)
                            == Some(file) && (file.len() <= ceiling || rung_quality(
                            settings.quality,
                            k,
                        ) <= QUALITY_FLOOR) && quality_rungs_over(
                            source,
                            ceiling,
                            settings.quality,
                            step,
                            k,
                        )
                    ||| (quality_rungs_over(source, ceiling, settings.quality, step, rungs)
                        && after == FitOutcome::Fitted(file) && file.len() <= ceiling)
                },
                FitOutcome::Exhausted => quality_rungs_over(
                    source,
                    ceiling,
                    settings.quality,
                    step,
                    rungs,
                ) && after == FitOutcome::Exhausted,
                FitOutcome::CodecFailed => {
                    ||| exists|k: nat|
                        step <= k < rungs && #[trigger] quality_rung(source, settings.quality, k)
                            is None && quality_rungs_over(
                            source,
                            ceiling,
                            settings.quality,
                            step,
                            k,
                        )
                    ||| (quality_rungs_over(source, ceiling, settings.quality, step, rungs)
                        && after == FitOutcome::CodecFailed)
                },
                FitOutcome::NoPixels => false,
            }
        }),
    decreases settings.max_iterations - step,
{
    let rungs = settings.max_iterations as nat;
    let initial = settings.quality;
    if step >= rungs {
        law_scale_walk_first_fit(
            source,
            Encoding::Jpeg { quality: initial },
            ceiling,
            settings.max_iterations,
            0,
        );
        assert(quality_rungs_over(source, ceiling, initial, step, rungs));
    } else {
        match quality_rung(source, initial, step) {
            Some(file) => {
                if file.len() <= ceiling || rung_quality(initial, step) <= QUALITY_FLOOR {
                    assert(quality_rungs_over(source, ceiling, initial, step, step));
                } else {
                    law_quality_walk_first_fit(source, ceiling, settings, step + 1);
                    match quality_walk(source, ceiling, settings, step + 1) {
                        FitOutcome::Fitted(found) => {
                            if quality_rungs_over(source, ceiling, initial, step + 1, rungs) {
                                assert(quality_rungs_over(source, ceiling, initial, step, rungs));
                            }
                            if exists|k: nat|
                                step + 1 <= k < rungs && #[trigger] quality_rung(source, initial, k)
                                    == Some(found) && (found.len() <= ceiling || rung_quality(
                                    initial,
                                    k,
                                ) <= QUALITY_FLOOR) && quality_rungs_over(
                                    source,
                                    ceiling,
                                    initial,
                                    step + 1,
                                    k,
                                ) {
                                let k = choose|k: nat|
                                    step + 1 <= k < rungs && #[trigger] quality_rung(
                                        source,
                                        initial,
                                        k,
                                    ) == Some(found) && (found.len() <= ceiling || rung_quality(
                                        initial,
                                        k,
                                    ) <= QUALITY_FLOOR) && quality_rungs_over(
                                        source,
                                        ceiling,
                                        initial,
                                        step + 1,
                                        k,
                                    );
                                assert(quality_rungs_over(source, ceiling, initial, step, k));
                            }
                        },
                        FitOutcome::CodecFailed => {
                            if quality_rungs_over(source, ceiling, initial, step + 1, rungs) {
                                assert(quality_rungs_over(source, ceiling, initial, step, rungs));
                            }
                            if exists|k: nat|
                                step + 1 <= k < rungs && #[trigger] quality_rung(source, initial, k)
                                    is None && quality_rungs_over(
                                    source,
                                    ceiling,
                                    initial,
                                    step + 1,
                                    k,
                                ) {
                                let k = choose|k: nat|
                                    step + 1 <= k < rungs && #[trigger] quality_rung(
                                        source,
                                        initial,
                                        k,
                                    ) is None && quality_rungs_over(
                                        source,
                                        ceiling,
                                        initial,
                                        step + 1,
                                        k,
                                    );
                                assert(quality_rungs_over(source, ceiling, initial, step, k));
                            }
                        },
                        FitOutcome::Exhausted => {
                            assert(quality_rungs_over(source, ceiling, initial, step, rungs));
                        },
                        FitOutcome::NoPixels => {},
                    }
                }
            },
            None => {
                assert(quality_rungs_over(source, ceiling, initial, step, step));
            },
        }
    }
}

/// A PNG is accepted as it is where it fits; else the scale ladder decides,
/// so that the accepted file is the first that fits.
pub proof fn law_png_fit_first_fit(source: Raster, ceiling: u64, settings: CompressionSettings)
    ensures
        match png_fit(source, ceiling, settings) {
            FitOutcome::Fitted(file) => file.len() <= ceiling && (encoded_image(
                source,
                Encoding::Png,
            ) == Some(file) || (encoded_image(source, Encoding::Png) matches Some(first)
                && first.len() > ceiling && exists|k: nat|
                k < settings.max_iterations && #[trigger] scale_rung(source, Encoding::Png, k)
                    == Some(file) && scale_rungs_over(source, Encoding::Png, ceiling, 0, k))),
            FitOutcome::Exhausted => encoded_image(source, Encoding::Png) matches Some(first)
                && first.len() > ceiling && scale_rungs_over(
                source,
                Encoding::Png,
                ceiling,
                0,
                settings.max_iterations as nat,
            ),
            FitOutcome::CodecFailed => true,
            FitOutcome::NoPixels => false,
        },
{
    law_scale_walk_first_fit(source, Encoding::Png, ceiling, settings.max_iterations, 0);
}

/// The rungs of the standard quality ladder: 85, 72, 61, 52, 44, all above
/// the floor.
pub proof fn law_standard_ladder()
    ensures
        rung_quality(85, 0) == 85,
        rung_quality(85, 1) == 72,
        rung_quality(85, 2) == 61,
        rung_quality(85, 3) == 52,
        rung_quality(85, 4) == 44,
{
    reveal_with_fuel(quality_at, 6);
}

/// No rung of the quality ladder asks for more than the rung before it, and
/// none after the first asks for less than the floor.
pub proof fn law_quality_descends(initial: u8, step: nat)
    ensures
        quality_at(initial, step + 1) <= quality_at(initial, step) || quality_at(initial, step + 1)
            == QUALITY_FLOOR as nat * MILLION as nat,
        quality_at(initial, step + 1) >= QUALITY_FLOOR as nat * MILLION as nat,
        rung_quality(initial, step + 1) >= QUALITY_FLOOR,
        quality_at(initial, step) <= 255 * MILLION,
    decreases step,
{
    if step > 0 {
        law_quality_descends(initial, (step - 1) as nat);
    }
}

/// Whether the JPEG of `source` never grows when the quality drops.
pub open spec fn jpeg_size_follows_quality(source: Raster) -> bool {
    forall|low: u8, high: u8|
        low <= high ==> match (
            #[trigger] encoded_image(source, Encoding::Jpeg { quality: low }),
            #[trigger] encoded_image(source, Encoding::Jpeg { quality: high }),
        ) {
            (Some(small), Some(large)) => small.len() <= large.len(),
            _ => true,
        }
}

/// A ladder that starts at the floor or above never asks for more quality
/// at a later rung than at an earlier one.
pub proof fn law_rung_quality_descends(initial: u8, earlier: nat, later: nat)
    requires
        initial >= QUALITY_FLOOR,
        earlier <= later,
    ensures
        QUALITY_FLOOR <= rung_quality(initial, later) <= rung_quality(initial, earlier),
        QUALITY_FLOOR as nat * MILLION as nat <= quality_at(initial, later) <= quality_at(
            initial,
            earlier,
        ),
    decreases later,
{
    law_quality_descends(initial, earlier);
    if later > earlier {
        law_rung_quality_descends(initial, earlier, (later - 1) as nat);
        law_quality_descends(initial, (later - 1) as nat);
    } else if earlier > 0 {
        law_quality_descends(initial, (earlier - 1) as nat);
    }
}

/// Where the JPEG of an image never grows when the quality drops, the files
/// of the quality ladder never grow from rung to rung.
pub proof fn law_quality_ladder_sizes_descend(
    source: Raster,
    initial: u8,
    earlier: nat,
    later: nat,
)
    requires
        jpeg_size_follows_quality(source),
        initial >= QUALITY_FLOOR,
        earlier <= later,
        quality_rung(source, initial, earlier) is Some,
        quality_rung(source, initial, later) is Some,
    ensures
        quality_rung(source, initial, later)->0.len() <= quality_rung(
            source,
            initial,
            earlier,
        )->0.len(),
{
    law_rung_quality_descends(initial, earlier, later);
}

/// No rung of the scale ladder is larger than the rung before it, and no
/// side grows: a scaled side is at most the side, and at least one pixel.
pub proof fn law_scale_descends(side: u32, step: nat)
    ensures
        scale_at(step + 1) <= scale_at(step) <= 900_000,
        1 <= scaled_side(side as nat, scale_at(step)),
        scaled_side(side as nat, scale_at(step)) <= side || side == 0,
        scaled_side(side as nat, scale_at(step + 1)) <= scaled_side(side as nat, scale_at(step)),
    decreases step,
{
    if step > 0 {
        law_scale_descends(side, (step - 1) as nat);
    }
    let (a, b) = (scale_at(step + 1), scale_at(step));
    let s = side as nat;
    assert(s * a <= s * b) by (nonlinear_arith)
        requires
            a <= b,
    ;
    assert(s * b <= s * 900_000) by (nonlinear_arith)
        requires
            b <= 900_000,
    ;
}

/// The quality that the encoder is given at rung `step` of the ladder that
/// starts at `initial`.
pub fn quality_of_rung(initial: u8, step: u32) -> (quality: u8)
    ensures
        quality == rung_quality(initial, step as nat),
{
    let mut quality: u64 = initial as u64 * MILLION;
    let mut done: u32 = 0;
    while done < step
        invariant
            done <= step,
            quality == quality_at(initial, done as nat),
            quality <= 255 * MILLION,
        decreases step - done,
    {
        quality = lower_quality(quality);
        done += 1;
    }
    (quality / MILLION) as u8
}

/// What is left of `side` pixels at rung `step` of the scale ladder.
pub fn side_of_rung(side: u32, step: u32) -> (out: u32)
    ensures
        out == scaled_side(side as nat, scale_at(step as nat)),
        out >= 1,
{
    let mut scale: u64 = 900_000;
    let mut done: u32 = 0;
    while done < step
        invariant
            done <= step,
            scale == scale_at(done as nat),
            scale <= 900_000,
        decreases step - done,
    {
        scale = scale * 8 / 10;
        done += 1;
    }
    scale_side(side, scale)
}

/// The quality of the next rung, in millionths.
fn lower_quality(quality: u64) -> (out: u64)
    requires
        quality <= 255 * MILLION,
    ensures
        out == next_quality(quality as nat),
        out <= 255 * MILLION,
{
    let lowered: u64 = quality * 85 / 100;
    if lowered < QUALITY_FLOOR as u64 * MILLION {
        QUALITY_FLOOR as u64 * MILLION
    } else {
        lowered
    }
}

/// Writes the message of an exhausted ladder.
fn exhausted_message(kind: &str, ceiling: u64, iterations: u32) -> (out: String)
    ensures
        out@ == exhausted_text(kind@, ceiling, iterations),
{
    let mut out = String::from_str("Could not compress ");
    out.append(kind);
    out.append(" to ");
    push_decimal(&mut out, ceiling);
    out.append(" bytes after ");
    push_decimal(&mut out, iterations as u64);
    out.append(" iterations");
    out
}

/// `side` scaled by `scale` millionths, at least one pixel.
fn scale_side(side: u32, scale: u64) -> (out: u32)
    requires
        scale <= 900_000,
    ensures
        out == scaled_side(side as nat, scale as nat),
        out >= 1,
{
    assert(side * scale <= 0xffff_ffff * 900_000) by (nonlinear_arith)
        requires
            0 <= side <= 0xffff_ffff,
            0 <= scale <= 900_000,
    {
    }
    let scaled: u64 = (side as u64) * scale / MILLION;
    if scaled < 1 {
        1
    } else {
        scaled as u32
    }
}

/// Compresses and converts images under a size limit.
pub struct ImageProcessor {
    compression_settings: CompressionSettings,
}

impl ImageProcessor {
    /// The settings this processor works with.
    pub closed spec fn settings(&self) -> CompressionSettings {
        self.compression_settings
    }

    /// A processor with the standard settings.
    pub fn new() -> (processor: Self)
        ensures
            processor.settings() == CompressionSettings::standard(),
    {
        ImageProcessor { compression_settings: CompressionSettings::default() }
    }

    /// A processor with `settings`.
    pub fn with_settings(settings: CompressionSettings) -> (processor: Self)
        ensures
            processor.settings() == settings,
    {
        ImageProcessor { compression_settings: settings }
    }

    /// Walks the scale ladder for `pixels`.
    pub fn resize_and_compress(
        &self,
        pixels: &PixelBuffer,
        encoding: Encoding,
        kind: &str,
        max_size: u64,
    ) -> (r: Result<Vec<u8>, ConversionError>)
        requires
            pixels.wf(),
        ensures
            reports(
                r,
                scale_walk(pixels@, encoding, max_size, self.settings().max_iterations, 0),
                kind@,
                max_size,
                self.settings().max_iterations,
            ),
            r matches Ok(file) ==> file@.len() > 0,
    {
        let iterations = self.compression_settings.max_iterations;
        let mut scale: u64 = 900_000;
        let mut step: u32 = 0;
        while step < iterations
            invariant
                pixels.wf(),
                iterations == self.settings().max_iterations,
                step <= iterations,
                scale == scale_at(step as nat),
                scale <= 900_000,
                scale_walk(pixels@, encoding, max_size, iterations, 0) == scale_walk(
                    pixels@,
                    encoding,
                    max_size,
                    iterations,
                    step as nat,
                ),
            decreases iterations - step,
        {
            let width = scale_side(pixels.width, scale);
            let height = scale_side(pixels.height, scale);
            let smaller = resize(pixels, width, height);
            match encode(&smaller, encoding) {
                Err(e) => {
                    return Err(e);
                },
                Ok(bytes) => {
                    if bytes.len() as u64 <= max_size {
                        return Ok(bytes);
                    }
                },
            }
            scale = scale * 8 / 10;
            step += 1;
        }
        Err(
            ConversionError::CompressionFailed {
                message: exhausted_message(kind, max_size, iterations),
            },
        )
    }

    /// Walks the scale ladder for `pixels`, encoding as JPEG at the initial
    /// quality.
    pub fn resize_and_compress_jpeg(&self, pixels: &PixelBuffer, max_size: u64) -> (r: Result<
        Vec<u8>,
        ConversionError,
    >)
        requires
            pixels.wf(),
        ensures
            reports(
                r,
                scale_walk(
                    pixels@,
                    Encoding::Jpeg { quality: self.settings().quality },
                    max_size,
                    self.settings().max_iterations,
                    0,
                ),
                "JPEG"@,
                max_size,
                self.settings().max_iterations,
            ),
            r matches Ok(file) ==> file@.len() > 0,
    {
        let encoding = Encoding::Jpeg { quality: self.compression_settings.quality };
        self.resize_and_compress(pixels, encoding, "JPEG", max_size)
    }

    /// Walks the scale ladder for `pixels`, encoding as PNG.
    pub fn resize_and_compress_png(&self, pixels: &PixelBuffer, max_size: u64) -> (r: Result<
        Vec<u8>,
        ConversionError,
    >)
        requires
            pixels.wf(),
        ensures
            reports(
                r,
                scale_walk(pixels@, Encoding::Png, max_size, self.settings().max_iterations, 0),
                "PNG"@,
                max_size,
                self.settings().max_iterations,
            ),
            r matches Ok(file) ==> file@.len() > 0,
    {
        self.resize_and_compress(pixels, Encoding::Png, "PNG", max_size)
    }

    /// Fits `pixels` under `max_size` bytes as a JPEG: lowers the quality rung
    /// by rung, then scales the image down.
    pub fn fit_jpeg(&self, pixels: &PixelBuffer, max_size: u64) -> (r: Result<
        Vec<u8>,
        ConversionError,
    >)
        requires
            pixels.wf(),
        ensures
            reports(
                r,
                jpeg_fit(pixels@, max_size, self.settings()),
                "JPEG"@,
                max_size,
                self.settings().max_iterations,
            ),
            r matches Ok(file) ==> file@.len() > 0,
    {
        let settings = self.compression_settings;
        let mut quality: u64 = settings.quality as u64 * MILLION;
        let mut step: u32 = 0;
        while step < settings.max_iterations
            invariant
                pixels.wf(),
                settings == self.settings(),
                step <= settings.max_iterations,
                quality == quality_at(settings.quality, step as nat),
                quality <= 255 * MILLION,
                quality_walk(pixels@, max_size, settings, 0) == quality_walk(
                    pixels@,
                    max_size,
                    settings,
                    step as nat,
                ),
            decreases settings.max_iterations - step,
        {
            let rung: u8 = (quality / MILLION) as u8;
            match encode(pixels, Encoding::Jpeg { quality: rung }) {
                Err(e) => {
                    return Err(e);
                },
                Ok(bytes) => {
                    if bytes.len() as u64 <= max_size || rung <= QUALITY_FLOOR {
                        return Ok(bytes);
                    }
                },
            }
            quality = lower_quality(quality);
            step += 1;
        }
        self.resize_and_compress_jpeg(pixels, max_size)
    }

    /// Fits `pixels` under `max_size` bytes as a PNG: as it is, or scaled down.
    pub fn fit_png(&self, pixels: &PixelBuffer, max_size: u64) -> (r: Result<
        Vec<u8>,
        ConversionError,
    >)
        requires
            pixels.wf(),
        ensures
            reports(
                r,
                png_fit(pixels@, max_size, self.settings()),
                "PNG"@,
                max_size,
                self.settings().max_iterations,
            ),
            r matches Ok(file) ==> file@.len() > 0,
    {
        let bytes = encode(pixels, Encoding::Png)?;
        if bytes.len() as u64 <= max_size {
            return Ok(bytes);
        }
        self.resize_and_compress_png(pixels, max_size)
    }

    /// Compresses the image file `content` to a JPEG of at most `max_size`
    /// bytes.
    pub fn compress_jpeg_to_size(&self, content: &[u8], max_size: u64) -> (r: Result<
        Vec<u8>,
        ConversionError,
    >)
        ensures
            reports(
                r,
                jpeg_compression(content@, max_size, self.settings()),
                "JPEG"@,
                max_size,
                self.settings().max_iterations,
            ),
            r matches Ok(file) ==> file@.len() > 0,
    {
        let pixels = decode(content)?;
        self.fit_jpeg(&pixels, max_size)
    }

    /// Compresses the image file `content` to a PNG of at most `max_size`
    /// bytes.
    pub fn compress_png_to_size(&self, content: &[u8], max_size: u64) -> (r: Result<
        Vec<u8>,
        ConversionError,
    >)
        ensures
            reports(
                r,
                png_compression(content@, max_size, self.settings()),
                "PNG"@,
                max_size,
                self.settings().max_iterations,
            ),
            r matches Ok(file) ==> file@.len() > 0,
    {
        let pixels = decode(content)?;
        self.fit_png(&pixels, max_size)
    }

    /// Converts the image file `content` to a JPEG of at most `max_size`
    /// bytes.
    pub fn convert_to_jpeg(&self, content: &[u8], max_size: u64) -> (r: Result<
        Vec<u8>,
        ConversionError,
    >)
        ensures
            reports(
                r,
                jpeg_conversion(content@, max_size, self.settings()),
                "JPEG"@,
                max_size,
                self.settings().max_iterations,
            ),
            r matches Ok(file) ==> file@.len() > 0,
    {
        let pixels = decode(content)?;
        let first = encode(&pixels, Encoding::Jpeg { quality: self.compression_settings.quality })?;
        self.compress_jpeg_to_size(first.as_slice(), max_size)
    }

    /// Converts the image file `content` to a PNG of at most `max_size` bytes.
    pub fn convert_to_png(&self, content: &[u8], max_size: u64) -> (r: Result<
        Vec<u8>,
        ConversionError,
    >)
        ensures
            reports(
                r,
                png_conversion(content@, max_size, self.settings()),
                "PNG"@,
                max_size,
                self.settings().max_iterations,
            ),
            r matches Ok(file) ==> file@.len() > 0,
    {
        let pixels = decode(content)?;
        let first = encode(&pixels, Encoding::Png)?;
        self.compress_png_to_size(first.as_slice(), max_size)
    }
    /// The dimensions to which an image of `width` by `height` pixels and
    /// `current_size` bytes is scaled to come to `target_size` bytes, the
    /// number of bytes going with the number of pixels. An image that is
    /// small enough keeps its dimensions.
    pub fn calculate_target_dimensions(
        &self,
        width: u32,
        height: u32,
        current_size: u64,
        target_size: u64,
    ) -> (dimensions: (u32, u32))
        ensures
            current_size <= target_size ==> dimensions == (width, height),
            current_size > target_size ==> dimensions.0 >= 1 && dimensions.1 >= 1,
            current_size > target_size ==> is_target_dimension(
                dimensions.0,
                width,
                current_size,
                target_size,
            ) && is_target_dimension(dimensions.1, height, current_size, target_size),
    {
        if current_size <= target_size {
            return (width, height);
        }
        let new_width = target_side(width, current_size, target_size);
        let new_height = target_side(height, current_size, target_size);
        proof {
            let (current, target) = (current_size as nat, target_size as nat);
            if is_target_side(0, width as nat, current, target) {
                law_target_side_unique(new_width as nat, 0, width as nat, current, target);
            }
            if is_target_side(0, height as nat, current, target) {
                law_target_side_unique(new_height as nat, 0, height as nat, current, target);
            }
        }
        (
            if new_width < 1 {
                1
            } else {
                new_width
            },
            if new_height < 1 {
                1
            } else {
                new_height
            },
        )
    }
}

} // verus!
