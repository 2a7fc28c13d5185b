//! The downscaling transform: tall images are resized to a fixed height and
//! re-encoded as WebP; everything else passes through.
use vstd::prelude::*;
use crate::path::{without_extension, without_extension_chars};
use crate::text::{chars_of, push_str, string_of};
use crate::transform::EntryTransform;

verus! {

/// The greatest image height that passes through unchanged, and the height a
/// taller image is resized to.
pub const MAX_HEIGHT: u32 = 2560;

/// Width and height of the image that `image::load_from_memory` decodes from
/// `data`, or `None` where it decodes none.
pub uninterp spec fn decoded_size(data: Seq<u8>) -> Option<(u32, u32)>;

/// The lossless WebP encoding of the image decoded from `data`, resized to
/// exactly `width` by `height` with a Lanczos filter, or `None` where decoding
/// or encoding fails.
pub uninterp spec fn webp_resized(data: Seq<u8>, width: u32, height: u32) -> Option<Seq<u8>>;

/// Relies on `image::load_from_memory` with `DynamicImage::width` and
/// `DynamicImage::height`: the size of the image in `data`, if it decodes.
#[verifier::external_body]
fn image_size(data: &Vec<u8>) -> (r: Option<(u32, u32)>)
    ensures
        r == decoded_size(data@),
{
    match image::load_from_memory(data) {
        Ok(img) => Some((img.width(), img.height())),
        Err(_) => None,
    }
}

/// Relies on `image::load_from_memory`, `DynamicImage::resize_exact` with the
/// Lanczos3 filter and `DynamicImage::write_to` in the WebP format.
#[verifier::external_body]
fn resized_webp(data: &Vec<u8>, width: u32, height: u32) -> (r: Option<Vec<u8>>)
    ensures
        match r {
            Some(v) => webp_resized(data@, width, height) == Some(v@),
            None => webp_resized(data@, width, height) is None,
        },
{
    let img = image::load_from_memory(data).ok()?;
    let resized = img.resize_exact(width, height, image::imageops::FilterType::Lanczos3);
    let mut buf = std::io::Cursor::new(Vec::new());
    resized.write_to(&mut buf, image::ImageFormat::WebP).ok()?;
    Some(buf.into_inner())
}

/// The width that keeps the aspect ratio of a `width` by `height` image whose
/// height becomes `MAX_HEIGHT`: rounded down, and at least one.
pub open spec fn scaled_width(width: u32, height: u32) -> int
    recommends
        height > 0,
{
    let w = (width as int * MAX_HEIGHT as int) / (height as int);
    if w < 1 {
        1
    } else {
        w
    }
}

/// An entry name with its extension replaced by `webp`.
pub open spec fn webp_name(name: Seq<char>) -> Seq<char> {
    without_extension(name) + seq!['.', 'w', 'e', 'b', 'p']
}

/// What the downscaling transform makes of an entry.
pub open spec fn downscaled(data: Seq<u8>, name: Seq<char>) -> Option<(Seq<u8>, Seq<char>)> {
    match decoded_size(data) {
        None => Some((data, name)),
        Some(size) => if size.1 <= MAX_HEIGHT {
            Some((data, name))
        } else {
            match webp_resized(data, scaled_width(size.0, size.1) as u32, MAX_HEIGHT) {
                None => None,
                Some(bytes) => Some((bytes, webp_name(name))),
            }
        },
    }
}

/// The transform that downscales images taller than `MAX_HEIGHT`.
pub struct Downscale;

/// The width of the downscaled image.
pub fn scale_width(width: u32, height: u32) -> (r: u32)
    requires
        height > MAX_HEIGHT,
    ensures
        r == scaled_width(width, height),
{
    assert(width as int * 2560 <= 0xffff_ffff * 2560) by (nonlinear_arith)
        requires
            width <= 0xffff_ffff,
    ;
    let w = (width as u64 * MAX_HEIGHT as u64) / height as u64;
    assert(w <= width) by (nonlinear_arith)
        requires
            w == (width as int * 2560) / (height as int),
            height > 2560,
    ;
    if w < 1 {
        1
    } else {
        w as u32
    }
}

/// The width to resize to, for an entry that decodes as an image of `size`
/// (`None` where it decodes as none): only an image taller than `MAX_HEIGHT`
/// is resized.
pub fn resize_target(size: Option<(u32, u32)>) -> (r: Option<u32>)
    ensures
        match size {
            None => r is None,
            Some(s) => if s.1 <= MAX_HEIGHT {
                r is None
            } else {
                r == Some(scaled_width(s.0, s.1) as u32)
            },
        },
{
    match size {
        None => None,
        Some((width, height)) => {
            if height <= MAX_HEIGHT {
                None
            } else {
                Some(scale_width(width, height))
            }
        },
    }
}

/// Replaces the extension of `name` by `webp`.
pub fn rename_to_webp(name: &String) -> (r: String)
    ensures
        r@ == webp_name(name@),
{
    let v = chars_of(name.as_str());
    let mut out = without_extension_chars(&v);
    push_str(&mut out, ".webp");
    proof {
        reveal_strlit(".webp");
    }
    assert(out@ =~= webp_name(name@));
    string_of(&out)
}

impl EntryTransform for Downscale {
    open spec fn spec_apply(&self, data: Seq<u8>, name: Seq<char>) -> Option<(Seq<u8>, Seq<char>)> {
        downscaled(data, name)
    }

    fn apply(&self, data: Vec<u8>, name: String) -> (r: Option<(Vec<u8>, String)>) {
        match resize_target(image_size(&data)) {
            None => Some((data, name)),
            Some(w) => match resized_webp(&data, w, MAX_HEIGHT) {
                None => None,
                Some(bytes) => Some((bytes, rename_to_webp(&name))),
            },
        }
    }
}

/// Content that decodes as no image, and an image no taller than `MAX_HEIGHT`,
/// pass through unchanged, name and bytes; a taller image becomes the WebP
/// encoding of it resized to exactly `MAX_HEIGHT` high and `scaled_width`
/// wide, under its name with the extension `webp`.
pub proof fn lemma_downscale_threshold(data: Seq<u8>, name: Seq<char>)
    ensures
        decoded_size(data) is None ==> Downscale.spec_apply(data, name) == Some((data, name)),
        decoded_size(data) is Some && decoded_size(data)->Some_0.1 <= MAX_HEIGHT ==> Downscale.spec_apply(data, name)
            == Some((data, name)),
        decoded_size(data) is Some && decoded_size(data)->Some_0.1 > MAX_HEIGHT ==> Downscale.spec_apply(data, name)
            == match webp_resized(
            data,
            scaled_width(decoded_size(data)->Some_0.0, decoded_size(data)->Some_0.1) as u32,
            MAX_HEIGHT,
        ) {
            None => None,
            Some(bytes) => Some((bytes, webp_name(name))),
        },
{
}

/// The scaled width keeps the aspect ratio, rounded down: it is the largest
/// width whose ratio to `MAX_HEIGHT` does not exceed `width` to `height`,
/// except that it never falls below one.
pub proof fn lemma_scaled_width_ratio(width: u32, height: u32)
    requires
        height > MAX_HEIGHT,
    ensures
        1 <= scaled_width(width, height) <= width || width == 0,
        scaled_width(width, height) > 1 ==> scaled_width(width, height) * height <= width * MAX_HEIGHT
            < (scaled_width(width, height) + 1) * height,
{
    let x = width as int * 2560;
    let h = height as int;
    vstd::arithmetic::div_mod::lemma_fundamental_div_mod(x, h);
    vstd::arithmetic::div_mod::lemma_mod_bound(x, h);
    assert(x / h <= width) by (nonlinear_arith)
        requires
            x == width as int * 2560,
            h > 2560,
            x / h * h + x % h == x,
            x % h >= 0,
    ;
    assert((x / h) * h <= x < (x / h + 1) * h) by (nonlinear_arith)
        requires
            x / h * h + x % h == x,
            0 <= x % h < h,
    ;
}

} // verus!
