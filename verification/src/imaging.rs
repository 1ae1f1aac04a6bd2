//! The perceptual-hash boundary: turns a decoded image into the 64-bit
//! fingerprint that the similarity analysis compares. The decode itself
//! is the caller's concern; this module only computes on the result.

use vstd::prelude::*;
use vstd::bytes::u64_from_le_bytes;

verus! {

#[verifier::external_type_specification]
#[verifier::external_body]
pub struct ExDynamicImage(image::DynamicImage);

/// Relies on image::DynamicImage::thumbnail: scales the image down to fit
/// within 200x200 pixels, preserving aspect ratio. The downsample only
/// bounds hashing cost; callers need nothing of the result's contents.
#[verifier::external_body]
fn downscale_for_hash(img: &image::DynamicImage) -> image::DynamicImage {
    img.thumbnail(200, 200)
}

/// Relies on image_hasher::Hasher::hash_image configured with the
/// Gradient algorithm at hash size 8x8: the hash holds 8 * 8 = 64 bits,
/// which ImageHash::as_bytes hands back packed into exactly 8 bytes.
#[verifier::external_body]
fn gradient_hash_bytes(img: &image::DynamicImage) -> (bytes: Vec<u8>)
    ensures
        bytes@.len() == 8,
{
    let hasher = image_hasher::HasherConfig::new().hash_alg(image_hasher::HashAlg::Gradient)
        .hash_size(8, 8)
        .to_hasher();
    hasher.hash_image(img).as_bytes().to_vec()
}

/// The 64-bit perceptual fingerprint of a decoded image: a gradient hash
/// of a downsampled copy, packed little-endian into one word. Everything
/// downstream depends only on this value, never on the image again.
pub fn compute_fingerprint(img: &image::DynamicImage) -> u64 {
    let small = downscale_for_hash(img);
    let bytes = gradient_hash_bytes(&small);
    u64_from_le_bytes(bytes.as_slice())
}

} // verus!
