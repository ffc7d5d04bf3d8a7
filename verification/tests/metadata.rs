use photosort::errors::Error;
use photosort::image::metadata::Metadata;
use photosort::image::rawler::RawlerImage;
use photosort::image::rexif::RexifImage;
use photosort::image::{loader_for, render, ImageLoader, LoaderKind};
use photosort::template::transforms::BasicTransform;
use photosort::template::{DataSource, TemplateContext};

fn sample(path: &str) -> Metadata {
    let mut metadata = Metadata::new(path);
    metadata.date_time = Some("2024:06:01 12:30:45".to_string());
    metadata
}

#[test]
fn image_number_comes_from_the_trailing_digits_of_the_stem() {
    assert_eq!(Metadata::new("photos/IMG_1234.jpg").image_number, Some(1234));
    assert_eq!(Metadata::new("IMG_0042.arw").image_number, Some(42));
    assert_eq!(Metadata::new("photos/rawshot.arw").image_number, None);
    assert_eq!(Metadata::new("photos/99999999999999999999.jpg").image_number, None);
}

#[test]
fn name_is_the_file_stem() {
    let metadata = Metadata::new("photos/IMG_1234.jpg");
    assert_eq!(metadata.get("name").unwrap().as_str(), "IMG_1234");
    assert!(Metadata::new("photos/").get("name").is_none());
}

#[test]
fn date_fields_are_sliced_from_the_date_time() {
    let metadata = sample("a.jpg");
    assert_eq!(metadata.get("year").unwrap().as_str(), "2024");
    assert_eq!(metadata.get("month").unwrap().as_str(), "06");
    assert_eq!(metadata.get("day").unwrap().as_str(), "01");
    assert_eq!(metadata.get("date").unwrap().as_str(), "2024-06-01");
    assert_eq!(metadata.get("time").unwrap().as_str(), "123045");
    assert_eq!(metadata.get("date_time").unwrap().as_str(), "20240601T123045");
}

#[test]
fn free_form_fields_are_cleaned_up() {
    let mut metadata = sample("a.jpg");
    metadata.artist = Some("  déjà vu  ".to_string());
    metadata.camera_make = Some(" Ansel ".to_string());
    assert_eq!(metadata.get("artist").unwrap().as_str(), "deja vu");
    assert_eq!(metadata.get("camera.make").unwrap().as_str(), "Ansel");
    assert!(metadata.get("copyright").is_none());
    assert!(metadata.get("unknown-key").is_none());
}

#[test]
fn number_field_renders_in_decimal() {
    let metadata = sample("IMG_0042.jpg");
    assert_eq!(metadata.get("number").unwrap().as_str(), "42");
}

#[test]
fn validate_requires_a_four_character_year() {
    assert!(sample("a.jpg").validate().is_ok());

    let bare = Metadata::new("a.jpg");
    assert!(matches!(bare.validate(), Err(Error::MissingRequiredField)));

    let mut blank_year = Metadata::new("a.jpg");
    blank_year.date_time = Some("   4:06:01 12:30:45".to_string());
    assert!(blank_year.validate().is_err());
}

#[test]
fn render_validates_and_renders() {
    let context = TemplateContext::new("{year}/{date_time}-{name}")
        .with_transform("lowercase", BasicTransform::Lowercase);

    let metadata = sample("photos/IMG_1234.jpg");
    assert_eq!(
        render(&context, &metadata).unwrap(),
        "2024/20240601T123045-IMG_1234"
    );

    let bare = Metadata::new("photos/IMG_1234.jpg");
    assert!(matches!(
        render(&context, &bare),
        Err(Error::MissingRequiredField)
    ));
}

#[test]
fn render_propagates_parse_errors() {
    let context: TemplateContext<BasicTransform> = TemplateContext::new("{year} {");
    let metadata = sample("a.jpg");
    assert!(matches!(render(&context, &metadata), Err(Error::Parse(_))));
}

#[test]
fn loaders_are_chosen_by_extension() {
    assert_eq!(loader_for("arw"), Some(LoaderKind::Rawler));
    assert_eq!(loader_for("CR3"), Some(LoaderKind::Rawler));
    assert_eq!(loader_for("jpg"), Some(LoaderKind::Rexif));
    assert_eq!(loader_for("JPEG"), Some(LoaderKind::Rexif));
    assert_eq!(loader_for("txt"), None);
    assert_eq!(loader_for(""), None);
    assert!(RawlerImage::supports("NEF"));
    assert!(!RawlerImage::supports("nef"));
    assert!(RexifImage::supports("TIFF"));
}

#[test]
fn the_remaining_free_form_keys_answer() {
    let mut metadata = sample("a.jpg");
    metadata.owner_name = Some("Owner".to_string());
    metadata.camera_model = Some("Model X".to_string());
    metadata.lens_make = Some("LensCo".to_string());
    metadata.lens_model = Some("50mm".to_string());
    assert_eq!(metadata.get("owner.name").unwrap().as_str(), "Owner");
    assert_eq!(metadata.get("camera.model").unwrap().as_str(), "Model X");
    assert_eq!(metadata.get("lens.make").unwrap().as_str(), "LensCo");
    assert_eq!(metadata.get("lens.model").unwrap().as_str(), "50mm");
}

#[test]
fn missing_field_error_message_is_stable() {
    let bare = Metadata::new("a.jpg");
    let err = bare.validate().expect_err("no date/time set");
    assert_eq!(err.message(), "the metadata does not hold a valid date/time");
}
