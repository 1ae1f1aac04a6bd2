use photosort::progress::CancelFlag;
use photosort::progress::PROGRESS_BATCH;
use photosort::progress::should_emit_progress;
use photosort::records::make_folder;
use photosort::records::make_photo;
use photosort::trash::trash_stats;

#[test]
fn progress_fires_on_batch_multiples_and_at_the_end() {
    assert_eq!(PROGRESS_BATCH, 5);
    assert!(should_emit_progress(5, 100));
    assert!(should_emit_progress(10, 100));
    assert!(!should_emit_progress(3, 100));
    assert!(!should_emit_progress(99, 100));
    assert!(should_emit_progress(100, 100));
    // a final batch smaller than the coalescing window still reports
    assert!(should_emit_progress(7, 7));
}

#[test]
fn cancel_flag_starts_clear_and_round_trips() {
    let f = CancelFlag::new();
    assert!(!f.is_cancelled());
    f.cancel();
    assert!(f.is_cancelled());
    f.reset();
    assert!(!f.is_cancelled());
}

#[test]
fn trash_stats_of_nothing_are_zero() {
    let stats = trash_stats(&Vec::new());
    assert_eq!(stats.freed_bytes, 0);
    assert_eq!(stats.count, 0);
}

#[test]
fn trash_stats_sum_sizes_and_count_files() {
    let stats = trash_stats(&vec![5, 10, 1]);
    assert_eq!(stats.freed_bytes, 16);
    assert_eq!(stats.count, 3);
}

#[test]
fn trash_stats_saturate_instead_of_wrapping() {
    let stats = trash_stats(&vec![u64::MAX, 1, 2]);
    assert_eq!(stats.freed_bytes, u64::MAX);
    assert_eq!(stats.count, 3);
}

#[test]
fn photos_are_assembled_from_the_given_values() {
    let p = make_photo(
        "pics/summer/IMG_1.JPG",
        2048,
        800,
        600,
        "2023-06-01T10:00:00Z".to_string(),
        "2023-06-02T10:00:00Z".to_string(),
    );
    assert_eq!(p.path, "pics/summer/IMG_1.JPG");
    assert_eq!(p.filename, "IMG_1.JPG");
    assert_eq!(p.size, 2048);
    assert_eq!(p.width, 800);
    assert_eq!(p.height, 600);
    assert_eq!(p.created_at, "2023-06-01T10:00:00Z");
    assert_eq!(p.modified_at, "2023-06-02T10:00:00Z");
    assert!(p.thumbnail_path.is_none());
    assert_eq!(p.id.len(), 36);
}

#[test]
fn a_trailing_separator_is_skipped_when_naming() {
    let p = make_photo(
        "pics/summer/",
        1,
        0,
        0,
        "2023-06-01T10:00:00Z".to_string(),
        "2023-06-01T10:00:00Z".to_string(),
    );
    assert_eq!(p.filename, "summer");
    assert_eq!(p.width, 0);
    assert_eq!(p.height, 0);
}

#[test]
fn a_nameless_path_gets_the_placeholder_name() {
    for path in ["/", "", "///", "pics/.."] {
        let p = make_photo(
            path,
            1,
            0,
            0,
            "2023-06-01T10:00:00Z".to_string(),
            "2023-06-01T10:00:00Z".to_string(),
        );
        assert_eq!(p.filename, "Inconnu");
    }
}

#[test]
fn cloned_photos_keep_every_field() {
    let p = make_photo(
        "pics/a.jpg",
        7,
        1,
        2,
        "2023-06-01T10:00:00Z".to_string(),
        "2023-06-01T11:00:00Z".to_string(),
    );
    let q = p.clone();
    assert_eq!(p.id, q.id);
    assert_eq!(p.path, q.path);
    assert_eq!(p.filename, q.filename);
    assert_eq!(p.size, q.size);
    assert_eq!(p.created_at, q.created_at);
    assert_eq!(p.modified_at, q.modified_at);
    assert_eq!(p.thumbnail_path, q.thumbnail_path);
}

#[test]
fn progress_events_carry_their_fields() {
    let e = photosort::types::AnalysisProgress {
        current: 5,
        total: 100,
        status: "Analyzing".to_string(),
        estimated_time_remaining: Some(30),
    };
    assert_eq!(e.current, 5);
    assert_eq!(e.total, 100);
    assert_eq!(e.status, "Analyzing");
    assert_eq!(e.estimated_time_remaining, Some(30));
}

#[test]
fn trash_items_remember_where_they_came_from() {
    let p = make_photo(
        "pics/a.jpg",
        7,
        1,
        2,
        "2023-06-01T10:00:00Z".to_string(),
        "2023-06-01T11:00:00Z".to_string(),
    );
    let original = p.path.clone();
    let item = photosort::types::TrashItem {
        id: photosort::naming::new_id(),
        photo: p,
        deleted_at: "2023-07-01T00:00:00Z".to_string(),
        original_path: original,
    };
    assert_eq!(item.photo.path, item.original_path);
    assert_eq!(item.id.len(), 36);
}

#[test]
fn folders_are_named_after_their_last_component() {
    let f = make_folder("pics/2023/summer", 12);
    assert_eq!(f.path, "pics/2023/summer");
    assert_eq!(f.name, "summer");
    assert_eq!(f.photo_count, Some(12));
    assert!(!f.is_excluded);
}
