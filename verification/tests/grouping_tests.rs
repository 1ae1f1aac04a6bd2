use photosort::fingerprint::Threshold;
use photosort::grouping::GROUP_SIMILARITY_PERMILLE;
use photosort::grouping::analysis_outcome;
use photosort::grouping::analyze_photos;
use photosort::grouping::group_photos;
use photosort::progress::CancelFlag;
use photosort::records::make_photo;
use photosort::types::PhotoWithHash;

fn record(name: &str, hash: Option<u64>) -> PhotoWithHash {
    let path = format!("photos/{}", name);
    let photo = make_photo(
        &path,
        1024,
        640,
        480,
        "2024-01-01T00:00:00Z".to_string(),
        "2024-01-02T00:00:00Z".to_string(),
    );
    PhotoWithHash { photo, hash }
}

#[test]
fn identical_pair_groups_and_dissimilar_record_stays_out() {
    // A and B identical (distance 0, similarity 1.0), C fully dissimilar
    let recs = vec![
        record("a.jpg", Some(0x1234)),
        record("b.jpg", Some(0x1234)),
        record("c.jpg", Some(!0x1234u64)),
    ];
    let groups = group_photos(&recs, Threshold::default());
    assert_eq!(groups.len(), 1);
    assert_eq!(groups[0].photos.len(), 2);
    assert_eq!(groups[0].photos[0].filename, "a.jpg");
    assert_eq!(groups[0].photos[1].filename, "b.jpg");
    assert_eq!(groups[0].similarity, GROUP_SIMILARITY_PERMILLE);
}

#[test]
fn record_that_failed_to_decode_produces_no_group() {
    let recs = vec![record("broken.jpg", None)];
    let groups = group_photos(&recs, Threshold::default());
    assert!(groups.is_empty());
}

#[test]
fn two_undecodable_records_never_group() {
    let recs = vec![record("u.jpg", None), record("v.jpg", None)];
    let groups = group_photos(&recs, Threshold::default());
    assert!(groups.is_empty());
}

#[test]
fn empty_input_yields_empty_output() {
    let recs: Vec<PhotoWithHash> = Vec::new();
    let groups = group_photos(&recs, Threshold::default());
    assert!(groups.is_empty());
}

#[test]
fn no_emitted_group_has_fewer_than_two_members() {
    let recs = vec![
        record("a.jpg", Some(0)),
        record("b.jpg", Some(u64::MAX)),
        record("c.jpg", Some(0x0f0f_0f0f_0f0f_0f0f)),
        record("d.jpg", Some(0)),
    ];
    let groups = group_photos(&recs, Threshold::default());
    for g in &groups {
        assert!(g.photos.len() >= 2);
    }
    // a and d pair up; b and c are far from everything
    assert_eq!(groups.len(), 1);
    assert_eq!(groups[0].photos[0].filename, "a.jpg");
    assert_eq!(groups[0].photos[1].filename, "d.jpg");
}

#[test]
fn every_record_lands_in_at_most_one_group() {
    // two separate identical pairs
    let recs = vec![
        record("a.jpg", Some(1)),
        record("b.jpg", Some(u64::MAX)),
        record("c.jpg", Some(1)),
        record("d.jpg", Some(u64::MAX)),
    ];
    let groups = group_photos(&recs, Threshold::default());
    assert_eq!(groups.len(), 2);
    let mut seen: Vec<String> = Vec::new();
    for g in &groups {
        for p in &g.photos {
            assert!(!seen.contains(&p.id));
            seen.push(p.id.clone());
        }
    }
    assert_eq!(seen.len(), 4);
}

#[test]
fn grouping_is_greedy_and_anchor_wins() {
    // y is within distance 9 of both x and z, but x anchors first and
    // absorbs it; z is left alone and forms no group.
    let x = 0u64;
    let y = 0x1ffu64; // distance 9 from x
    let z = 0x3ffffu64; // distance 9 from y, 18 from x
    let recs = vec![record("x.jpg", Some(x)), record("y.jpg", Some(y)), record("z.jpg", Some(z))];
    let groups = group_photos(&recs, Threshold::default());
    assert_eq!(groups.len(), 1);
    assert_eq!(groups[0].photos.len(), 2);
    assert_eq!(groups[0].photos[0].filename, "x.jpg");
    assert_eq!(groups[0].photos[1].filename, "y.jpg");
}

#[test]
fn anchor_absorbs_all_later_similar_records() {
    let recs = vec![
        record("a.jpg", Some(0)),
        record("b.jpg", Some(1)),
        record("c.jpg", Some(2)),
        record("d.jpg", Some(3)),
    ];
    let groups = group_photos(&recs, Threshold::default());
    assert_eq!(groups.len(), 1);
    assert_eq!(groups[0].photos.len(), 4);
}

#[test]
fn group_ids_look_like_uuids() {
    let recs = vec![record("a.jpg", Some(7)), record("b.jpg", Some(7))];
    let groups = group_photos(&recs, Threshold::default());
    assert_eq!(groups.len(), 1);
    assert_eq!(groups[0].id.len(), 36);
}

#[test]
fn cancelled_outcome_is_empty_whatever_was_extracted() {
    let recs = vec![record("a.jpg", Some(7)), record("b.jpg", Some(7))];
    let groups = analysis_outcome(true, &recs, Threshold::default());
    assert!(groups.is_empty());
    let groups = analysis_outcome(false, &recs, Threshold::default());
    assert_eq!(groups.len(), 1);
}

#[test]
fn cancel_before_a_run_empties_it_and_reset_restores_it() {
    let recs = vec![record("a.jpg", Some(7)), record("b.jpg", Some(7))];
    let cancel = CancelFlag::new();
    cancel.cancel();
    let groups = analyze_photos(&cancel, &recs, Threshold::default());
    assert!(groups.is_empty());
    // a fresh run resets the flag and behaves normally
    cancel.reset();
    let groups = analyze_photos(&cancel, &recs, Threshold::default());
    assert_eq!(groups.len(), 1);
    assert_eq!(groups[0].photos.len(), 2);
}

#[test]
fn cancellable_grouping_observes_the_token() {
    let recs = vec![record("a.jpg", Some(7)), record("b.jpg", Some(7))];
    let cancel = CancelFlag::new();
    // cancelled before the pass starts: settles for the empty list even
    // though a group exists
    cancel.cancel();
    let groups = photosort::grouping::group_photos_cancellable(&cancel, &recs, Threshold::default());
    assert!(groups.is_empty());
    // with the token clear the pass runs to the end
    cancel.reset();
    let groups = photosort::grouping::group_photos_cancellable(&cancel, &recs, Threshold::default());
    assert_eq!(groups.len(), 1);
    assert_eq!(groups[0].photos.len(), 2);
}

#[test]
fn analyzing_nothing_returns_an_empty_list() {
    let cancel = CancelFlag::new();
    let recs: Vec<PhotoWithHash> = Vec::new();
    let groups = analyze_photos(&cancel, &recs, Threshold::default());
    assert!(groups.is_empty());
}

#[test]
fn a_permissive_threshold_still_skips_fingerprintless_records() {
    let recs = vec![
        record("a.jpg", Some(0)),
        record("broken.jpg", None),
        record("b.jpg", Some(0)),
    ];
    let groups = group_photos(&recs, Threshold { permille: 0 });
    assert_eq!(groups.len(), 1);
    assert_eq!(groups[0].photos.len(), 2);
    assert_eq!(groups[0].photos[0].filename, "a.jpg");
    assert_eq!(groups[0].photos[1].filename, "b.jpg");
}
