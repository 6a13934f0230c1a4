//! Images made of the pixels that a scene carries.
use rgb::FromSlice;
use vstd::prelude::*;

verus! {

/// An image of the `imgref` crate.
#[verifier::external_type_specification]
#[verifier::external_body]
#[verifier::reject_recursive_types(Container)]
pub struct ExImg<Container>(imgref::Img<Container>);

/// A pixel of the `rgb` crate.
#[verifier::external_type_specification]
#[verifier::external_body]
#[verifier::reject_recursive_types(T)]
#[verifier::reject_recursive_types(A)]
pub struct ExRgba<T, A>(rgb::Rgba<T, A>);

/// The channels of the pixels that an image holds: red, green, blue and alpha of
/// each, row by row.
pub uninterp spec fn image_channels(image: imgref::Img<Vec<rgb::Rgba<u8>>>) -> Seq<u8>;

/// The width and the height of an image in pixels.
pub uninterp spec fn image_extent(image: imgref::Img<Vec<rgb::Rgba<u8>>>) -> (u32, u32);

/// Calls `imgref::Img::new` on the bytes seen as pixels by
/// `rgb::FromSlice::as_rgba`: the image holds every complete pixel of four bytes
/// in order, leftover bytes are dropped, and it has the width and the height
/// given.  `Img::new` panics for a width of zero.
#[verifier::external_body]
fn image_of_bytes(bytes: &Vec<u8>, width: u32, height: u32) -> (r: imgref::Img<
    Vec<rgb::Rgba<u8>>,
>)
    requires
        width > 0,
    ensures
        image_channels(r) == bytes@.take((bytes@.len() as int / 4) * 4),
        image_extent(r) == (width, height),
{
    imgref::Img::new(bytes.as_rgba().to_vec(), width as usize, height as usize)
}

/// The image of four-channel pixels, for upload to the canvas.
pub fn upload_pixmap(pixels: &Vec<u8>, width: u32, height: u32) -> (r: imgref::Img<
    Vec<rgb::Rgba<u8>>,
>)
    requires
        width > 0,
    ensures
        image_channels(r) == pixels@.take((pixels@.len() as int / 4) * 4),
        image_extent(r) == (width, height),
{
    image_of_bytes(pixels, width, height)
}

} // verus!
