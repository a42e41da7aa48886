//! The image transcoder: decode a supported raster image, fit it inside a
//! bounding box while preserving the aspect ratio and never upscaling, and
//! re-encode the result in one fixed output format (PNG).

use vstd::prelude::*;

use vstd::arithmetic::div_mod::{
    lemma_div_by_multiple, lemma_div_is_ordered, lemma_fundamental_div_mod,
    lemma_mod_division_less_than_divisor,
};

use crate::errors::Error;

verus! {

/// Whether a byte sequence decodes as a supported raster image, and the
/// decoded width and height when it does. Both depend on the bytes alone.
pub uninterp spec fn decoded_dims(bytes: Seq<u8>) -> Option<(u32, u32)>;

/// The PNG bytes produced by decoding an image, resampling it to exactly the
/// given dimensions, and re-encoding it. Depends on the input bytes and the
/// target dimensions alone.
pub uninterp spec fn png_render(bytes: Seq<u8>, width: u32, height: u32) -> Seq<u8>;

/// Relies on `image::load_from_memory` together with `DynamicImage::width`
/// and `DynamicImage::height`: whether the bytes decode, and the decoded
/// dimensions, are a pure function of the bytes.
#[verifier::external_body]
fn probe_dims(data: &[u8]) -> (r: Option<(u32, u32)>)
    ensures
        r == decoded_dims(data@),
{
    match image::load_from_memory(data) {
        Ok(img) => Some((img.width(), img.height())),
        Err(_) => None,
    }
}

/// Relies on `image::load_from_memory`, `DynamicImage::thumbnail_exact` and
/// `DynamicImage::write_to` with the PNG format: resampling yields an image
/// of exactly the requested dimensions, PNG-encoding an image decoded from a
/// PNG or JPEG source always succeeds and is a pure function of the input
/// bytes and the dimensions, and the written PNG decodes back to the
/// dimensions it was written with. The bound on the pixel count keeps the
/// resampled buffer's byte length (at most eight bytes per pixel) within
/// `usize`, which `ImageBuffer` demands.
#[verifier::external_body]
fn render_png(data: &[u8], width: u32, height: u32) -> (r: Option<Vec<u8>>)
    requires
        1 <= width,
        1 <= height,
        8 * (width as nat) * (height as nat) <= usize::MAX,
    ensures
        r is Some <==> decoded_dims(data@) is Some,
        r is Some ==> r->Some_0@ == png_render(data@, width, height),
        r is Some ==> decoded_dims(r->Some_0@) == Some((width, height)),
{
    let img = match image::load_from_memory(data) {
        Ok(img) => img,
        Err(_) => return None,
    };
    let resized = img.thumbnail_exact(width, height);
    let mut buffer = std::io::Cursor::new(Vec::new());
    match resized.write_to(&mut buffer, image::ImageFormat::Png) {
        Ok(()) => Some(buffer.into_inner()),
        Err(_) => None,
    }
}

/// `(a * b) / c` rounded down, kept at least 1: the scaled length of one
/// side of the bounding box.
pub open spec fn scaled_side(a: u32, b: u32, c: u32) -> u32
    recommends
        1 <= c,
{
    let q = (a * b) / (c as int);
    if q == 0 {
        1u32
    } else {
        q as u32
    }
}

/// The transcoder's output dimensions for an original of `ow` by `oh` under
/// the bounding box `mw` by `mh`: the original size where it already fits
/// (thumbnails never upscale), otherwise the largest size inside the box
/// that keeps the original aspect ratio, each side rounded down but kept at
/// least one pixel.
pub open spec fn fit_dims(ow: u32, oh: u32, mw: u32, mh: u32) -> (u32, u32)
    recommends
        1 <= ow,
        1 <= oh,
        1 <= mw,
        1 <= mh,
{
    if ow <= mw && oh <= mh {
        (ow, oh)
    } else if ow * mh >= oh * mw {
        (mw, scaled_side(oh, mw, ow))
    } else {
        (scaled_side(ow, mh, oh), mh)
    }
}

/// Whether a byte sequence decodes as a supported raster image with both
/// sides at least one pixel.
pub open spec fn valid_image(bytes: Seq<u8>) -> bool {
    match decoded_dims(bytes) {
        Option::Some(dims) => 1 <= dims.0 && 1 <= dims.1,
        Option::None => false,
    }
}

/// The thumbnail the transcoder derives for an image: its PNG rendering at
/// the fitted dimensions.
pub open spec fn thumbnail_of(bytes: Seq<u8>, mw: u32, mh: u32) -> Seq<u8>
    recommends
        valid_image(bytes),
{
    let dims = decoded_dims(bytes)->Some_0;
    let target = fit_dims(dims.0, dims.1, mw, mh);
    png_render(bytes, target.0, target.1)
}

/// Compute the transcoder's output dimensions for an original of `ow` by
/// `oh` under the bounding box `mw` by `mh`.
pub fn fit_dimensions(ow: u32, oh: u32, mw: u32, mh: u32) -> (r: (u32, u32))
    requires
        1 <= ow,
        1 <= oh,
        1 <= mw,
        1 <= mh,
    ensures
        r == fit_dims(ow, oh, mw, mh),
{
    if ow <= mw && oh <= mh {
        (ow, oh)
    } else {
        proof {
            assert((ow as int) * (mh as int) < 0x10000000000000000
                && (oh as int) * (mw as int) < 0x10000000000000000
                && (oh as int) * (ow as int) < 0x10000000000000000
                && (ow as int) * (oh as int) < 0x10000000000000000) by (nonlinear_arith)
                requires
                    ow < 0x100000000,
                    oh < 0x100000000,
                    mw < 0x100000000,
                    mh < 0x100000000,
            ;
        }
        let wside: u64 = (ow as u64) * (mh as u64);
        let hside: u64 = (oh as u64) * (mw as u64);
        if wside >= hside {
            let q: u64 = hside / (ow as u64);
            proof {
                lemma_div_is_ordered((oh as int) * (mw as int), (ow as int) * (mh as int), ow as int);
                lemma_div_by_multiple(mh as int, ow as int);
                assert((ow as int) * (mh as int) == (mh as int) * (ow as int)) by (nonlinear_arith);
            }
            if q == 0 {
                (mw, 1)
            } else {
                (mw, q as u32)
            }
        } else {
            let q: u64 = wside / (oh as u64);
            proof {
                lemma_div_is_ordered((ow as int) * (mh as int), (oh as int) * (mw as int), oh as int);
                lemma_div_by_multiple(mw as int, oh as int);
                assert((oh as int) * (mw as int) == (mw as int) * (oh as int)) by (nonlinear_arith);
            }
            if q == 0 {
                (1, mh)
            } else {
                (q as u32, mh)
            }
        }
    }
}

/// Thumbnail bound law: the fitted dimensions stay inside the bounding box,
/// never exceed the original (no upscaling), keep both sides at least one
/// pixel, and equal the original exactly when it already fits in the box.
pub proof fn lemma_thumbnail_bound(ow: u32, oh: u32, mw: u32, mh: u32)
    requires
        1 <= ow,
        1 <= oh,
        1 <= mw,
        1 <= mh,
    ensures
        ({
            let (tw, th) = fit_dims(ow, oh, mw, mh);
            &&& tw <= mw
            &&& th <= mh
            &&& tw <= ow
            &&& th <= oh
            &&& 1 <= tw
            &&& 1 <= th
            &&& (ow <= mw && oh <= mh ==> tw == ow && th == oh)
        }),
{
    if ow <= mw && oh <= mh {
    } else if ow * mh >= oh * mw {
        assert(mw < ow) by (nonlinear_arith)
            requires
                1 <= ow,
                1 <= oh,
                1 <= mw,
                1 <= mh,
                !(ow <= mw && oh <= mh),
                (ow as int) * (mh as int) >= (oh as int) * (mw as int),
        ;
        assert((oh as int) * (mw as int) <= (oh as int) * (ow as int)) by (nonlinear_arith)
            requires
                mw <= ow,
                1 <= oh,
        ;
        lemma_div_is_ordered((oh as int) * (mw as int), (oh as int) * (ow as int), ow as int);
        lemma_div_by_multiple(oh as int, ow as int);
        lemma_div_is_ordered((oh as int) * (mw as int), (ow as int) * (mh as int), ow as int);
        lemma_div_by_multiple(mh as int, ow as int);
        assert((ow as int) * (mh as int) == (mh as int) * (ow as int)) by (nonlinear_arith);
    } else {
        assert(mh < oh) by (nonlinear_arith)
            requires
                1 <= ow,
                1 <= oh,
                1 <= mw,
                1 <= mh,
                !(ow <= mw && oh <= mh),
                (ow as int) * (mh as int) < (oh as int) * (mw as int),
        ;
        assert((ow as int) * (mh as int) <= (ow as int) * (oh as int)) by (nonlinear_arith)
            requires
                mh <= oh,
                1 <= ow,
        ;
        lemma_div_is_ordered((ow as int) * (mh as int), (ow as int) * (oh as int), oh as int);
        lemma_div_by_multiple(ow as int, oh as int);
        lemma_div_is_ordered((ow as int) * (mh as int), (oh as int) * (mw as int), oh as int);
        lemma_div_by_multiple(mw as int, oh as int);
        assert((oh as int) * (mw as int) == (mw as int) * (oh as int)) by (nonlinear_arith);
    }
}

/// Aspect-ratio law: as long as neither fitted side collapses to the
/// one-pixel floor (the exact scaled lengths are at least one), the fitted
/// dimensions match the original aspect ratio within one unit of rounding:
/// `tw/ow` and `th/oh` differ by less than one pixel in either direction.
pub proof fn lemma_thumbnail_aspect(ow: u32, oh: u32, mw: u32, mh: u32)
    requires
        1 <= ow,
        1 <= oh,
        1 <= mw,
        1 <= mh,
        ow <= oh * mw,
        oh <= ow * mh,
    ensures
        ({
            let (tw, th) = fit_dims(ow, oh, mw, mh);
            &&& (tw as int) * (oh as int) <= (th as int) * (ow as int) + ow
            &&& (th as int) * (ow as int) <= (tw as int) * (oh as int) + oh
        }),
{
    broadcast use vstd::arithmetic::mul::lemma_mul_is_commutative;

    if ow <= mw && oh <= mh {
    } else if ow * mh >= oh * mw {
        lemma_div_is_ordered(ow as int, (oh as int) * (mw as int), ow as int);
        lemma_div_by_multiple(1int, ow as int);
        lemma_div_is_ordered((oh as int) * (mw as int), (ow as int) * (mh as int), ow as int);
        lemma_div_by_multiple(mh as int, ow as int);
        lemma_fundamental_div_mod((oh as int) * (mw as int), ow as int);
        lemma_mod_division_less_than_divisor((oh as int) * (mw as int), ow as int);
    } else {
        lemma_div_is_ordered(oh as int, (ow as int) * (mh as int), oh as int);
        lemma_div_by_multiple(1int, oh as int);
        lemma_div_is_ordered((ow as int) * (mh as int), (oh as int) * (mw as int), oh as int);
        lemma_div_by_multiple(mw as int, oh as int);
        lemma_fundamental_div_mod((ow as int) * (mh as int), oh as int);
        lemma_mod_division_less_than_divisor((ow as int) * (mh as int), oh as int);
    }
}

/// Transcode an image to its thumbnail: decode, fit inside the bounding
/// box, and re-encode as PNG. Succeeds exactly on bytes that decode as a
/// supported raster image, and fails with `InvalidImageData` otherwise.
pub fn transcode(data: &Vec<u8>, max_width: u32, max_height: u32) -> (r: Result<Vec<u8>, Error>)
    requires
        1 <= max_width,
        1 <= max_height,
        8 * (max_width as nat) * (max_height as nat) <= usize::MAX,
    ensures
        r is Ok <==> valid_image(data@),
        r is Ok ==> r->Ok_0@ == thumbnail_of(data@, max_width, max_height),
        r is Ok ==> {
            let dims = decoded_dims(data@)->Some_0;
            decoded_dims(r->Ok_0@) == Some(fit_dims(dims.0, dims.1, max_width, max_height))
        },
        r is Err ==> r->Err_0 == Error::InvalidImageData,
{
    match probe_dims(data.as_slice()) {
        Some(dims) => {
            if dims.0 == 0 || dims.1 == 0 {
                return Err(Error::InvalidImageData);
            }
            let target = fit_dimensions(dims.0, dims.1, max_width, max_height);
            proof {
                lemma_thumbnail_bound(dims.0, dims.1, max_width, max_height);
                assert(8 * (target.0 as nat) * (target.1 as nat) <= 8 * (max_width as nat) * (
                max_height as nat)) by (nonlinear_arith)
                    requires
                        target.0 <= max_width,
                        target.1 <= max_height,
                ;
            }
            match render_png(data.as_slice(), target.0, target.1) {
                Some(v) => Ok(v),
                None => Err(Error::InvalidImageData),
            }
        },
        None => Err(Error::InvalidImageData),
    }
}

} // verus!
