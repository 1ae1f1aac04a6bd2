use image::DynamicImage;
use image::RgbImage;
use photosort::fingerprint::Threshold;
use photosort::fingerprint::hamming_distance;
use photosort::grouping::group_photos;
use photosort::imaging::compute_fingerprint;
use photosort::records::make_photo;
use photosort::types::PhotoWithHash;

fn ramp_image(reversed: bool) -> DynamicImage {
    let img = RgbImage::from_fn(64, 64, |x, _y| {
        let v = if reversed { 255 - (x * 4) as u8 } else { (x * 4) as u8 };
        image::Rgb([v, v, v])
    });
    DynamicImage::ImageRgb8(img)
}

#[test]
fn identical_images_get_identical_fingerprints() {
    let a = compute_fingerprint(&ramp_image(false));
    let b = compute_fingerprint(&ramp_image(false));
    assert_eq!(a, b);
}

#[test]
fn opposite_ramps_get_distant_fingerprints() {
    let a = compute_fingerprint(&ramp_image(false));
    let b = compute_fingerprint(&ramp_image(true));
    // a rising ramp and a falling ramp disagree in every gradient bit
    assert!(hamming_distance(a, b) > 32);
}

#[test]
fn fingerprinted_duplicates_group_end_to_end() {
    let fp1 = compute_fingerprint(&ramp_image(false));
    let fp2 = compute_fingerprint(&ramp_image(false));
    let fp3 = compute_fingerprint(&ramp_image(true));
    let mk = |name: &str, fp: u64| PhotoWithHash {
        photo: make_photo(
            name,
            10,
            64,
            64,
            "2024-01-01T00:00:00Z".to_string(),
            "2024-01-01T00:00:00Z".to_string(),
        ),
        hash: Some(fp),
    };
    let recs = vec![mk("one.png", fp1), mk("two.png", fp2), mk("three.png", fp3)];
    let groups = group_photos(&recs, Threshold::default());
    assert_eq!(groups.len(), 1);
    assert_eq!(groups[0].photos.len(), 2);
    assert_eq!(groups[0].photos[0].filename, "one.png");
    assert_eq!(groups[0].photos[1].filename, "two.png");
}
