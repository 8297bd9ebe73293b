use vstd::prelude::*;
use crate::field::PixelField;
use image::DynamicImage;
use image::GenericImageView;

verus! {

/// `DynamicImage` of the `image` crate: a decoded image. Nothing inside
/// it is seen here; it is read through the functions below only.
#[verifier::external_type_specification]
#[verifier::external_body]
pub struct ExDynamicImage(image::DynamicImage);

/// Width of a decoded image in pixels.
pub uninterp spec fn image_width(image: DynamicImage) -> u32;

/// Height of a decoded image in pixels.
pub uninterp spec fn image_height(image: DynamicImage) -> u32;

/// The pixels of a decoded image as samples of red, green, blue and
/// alpha, row by row from the top and from left to right in each row.
pub uninterp spec fn image_pixels(image: DynamicImage) -> Seq<[u8; 4]>;

/// `GenericImageView::width` of the `image` crate on a `DynamicImage`.
/// Nothing is claimed of it but that it is the width that the contracts
/// of this module speak of.
#[verifier::external_body]
fn width_of(image: &DynamicImage) -> (width: u32)
    ensures
        width == image_width(*image),
{
    image.width()
}

/// `GenericImageView::height` of the `image` crate on a `DynamicImage`.
/// Nothing is claimed of it but that it is the height that the contracts
/// of this module speak of.
#[verifier::external_body]
fn height_of(image: &DynamicImage) -> (height: u32)
    ensures
        height == image_height(*image),
{
    image.height()
}

/// `GenericImageView::pixels` of the `image` crate on a `DynamicImage`,
/// with the coordinates dropped. The iterator walks the rows from the
/// top and each row from the left, and yields one RGBA sample for every
/// position: the claim is that there are width times height of them.
/// An image without columns is left out, because the iterator then asks
/// for a pixel that does not exist as soon as there is a second row.
#[verifier::external_body]
fn samples_of(image: &DynamicImage) -> (samples: Vec<[u8; 4]>)
    requires
        image_width(*image) > 0,
    ensures
        samples@ == image_pixels(*image),
        samples@.len() == image_width(*image) * image_height(*image),
{
    image.pixels().map(|pixel| pixel.2.data).collect()
}

/// Reads a decoded image into a field of RGBA samples. An image without
/// columns gives an empty field.
pub fn pixel_field(image: &DynamicImage) -> (field: PixelField<[u8; 4]>)
    ensures
        field.wf(),
        field.width == image_width(*image),
        field.height == image_height(*image),
        image_width(*image) > 0 ==> field@ == image_pixels(*image),
        image_width(*image) == 0 ==> field@.len() == 0,
{
    let width: u32 = width_of(image);
    let height: u32 = height_of(image);
    if width == 0 {
        assert(0 * height == 0) by (nonlinear_arith);
        PixelField { width, height, data: Vec::new() }
    } else {
        PixelField { width, height, data: samples_of(image) }
    }
}

} // verus!
