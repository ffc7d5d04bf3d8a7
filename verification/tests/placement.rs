use photosort::conflict_manager::{are_files_equal, file_hash, Placement, PlacementAction};

#[test]
fn empty_input_hashes_to_the_known_digest() {
    assert_eq!(
        file_hash(&[]),
        "e3b0c44298fc1c149afbf4c8996fb92427ae41e4649b934ca495991b7852b855"
    );
}

#[test]
fn abc_hashes_to_the_known_digest() {
    assert_eq!(
        file_hash(b"abc"),
        "ba7816bf8f01cfea414140de5dae2223b00361a396177a9cb410ff61f20015ad"
    );
}

#[test]
fn equal_contents_compare_equal() {
    assert!(are_files_equal(b"same bytes", b"same bytes"));
    assert!(!are_files_equal(b"same bytes", b"other bytes"));
    assert!(!are_files_equal(b"", b"x"));
}

#[test]
fn free_destination_receives_the_file() {
    let mut placement = Placement::new("photos/2024/photo.jpg");
    assert_eq!(placement.candidate(), "photos/2024/photo.jpg");
    assert_eq!(placement.step(false, false), Some(PlacementAction::MoveSource));
    assert_eq!(placement.candidate(), "photos/2024/photo.jpg");
}

#[test]
fn identical_content_deduplicates_without_a_new_file() {
    let mut placement = Placement::new("photo.jpg");
    assert_eq!(placement.step(true, true), Some(PlacementAction::RemoveSource));
    assert_eq!(placement.candidate(), "photo.jpg");

    // a second, fresh search against the same occupied destination again
    // creates nothing new
    let mut again = Placement::new("photo.jpg");
    assert_eq!(again.step(true, true), Some(PlacementAction::RemoveSource));
    assert_eq!(again.candidate(), "photo.jpg");
}

#[test]
fn differing_content_disambiguates_in_sequence() {
    // photo.jpg and photo (1).jpg both exist with differing content: the
    // file lands at photo (2).jpg
    let mut placement = Placement::new("photo.jpg");
    assert_eq!(placement.step(true, false), None);
    assert_eq!(placement.candidate(), "photo (1).jpg");
    assert_eq!(placement.step(true, false), None);
    assert_eq!(placement.candidate(), "photo (2).jpg");
    assert_eq!(placement.step(false, false), Some(PlacementAction::MoveSource));
    assert_eq!(placement.candidate(), "photo (2).jpg");
}

#[test]
fn identical_disambiguated_candidate_deduplicates() {
    // photo.jpg differs but photo (1).jpg holds identical content: the
    // source is removed and photo (1).jpg is the final path
    let mut placement = Placement::new("photo.jpg");
    assert_eq!(placement.step(true, false), None);
    assert_eq!(placement.candidate(), "photo (1).jpg");
    assert_eq!(placement.step(true, true), Some(PlacementAction::RemoveSource));
    assert_eq!(placement.candidate(), "photo (1).jpg");
}

#[test]
fn the_counter_renders_in_decimal() {
    let mut placement = Placement::new("dir.with.dots/photo.jpg");
    for _ in 0..12 {
        assert_eq!(placement.step(true, false), None);
    }
    assert_eq!(placement.candidate(), "dir.with.dots/photo (12).jpg");
}

#[test]
fn the_directory_part_is_kept() {
    let mut placement = Placement::new("a/b/c.tar.gz");
    assert_eq!(placement.step(true, false), None);
    assert_eq!(placement.candidate(), "a/b/c.tar (1).gz");
}
