use photosort::template::transforms::BasicTransform;
use photosort::template::value::Value;
use photosort::template::{DataSource, KeyValueSource, TemplateContext};

#[test]
fn test_template_context() {
    let context = TemplateContext::new("Hello, {name|uppercase}!")
        .with_transform("uppercase", BasicTransform::Uppercase);

    let data = KeyValueSource::new().with("name", "world");

    assert_eq!(context.render(&data).unwrap(), "Hello, WORLD!");
}

#[test]
fn missing_field_renders_as_empty_string() {
    let context: TemplateContext<BasicTransform> = TemplateContext::new("{missing}");
    let data = KeyValueSource::new();
    assert_eq!(context.render(&data).unwrap(), "");
}

#[test]
fn unknown_transform_is_identity() {
    let context: TemplateContext<BasicTransform> = TemplateContext::new("{name|nope}");
    let data = KeyValueSource::new().with("name", "X");
    assert_eq!(context.render(&data).unwrap(), "X");
}

#[test]
fn transform_chain_applies_left_to_right() {
    let data = KeyValueSource::new().with("name", "  ab  ");

    let context = TemplateContext::new("{name|trim|upper}")
        .with_transform("upper", BasicTransform::Uppercase)
        .with_transform("trim", BasicTransform::Trim);
    assert_eq!(context.render(&data).unwrap(), "AB");

    let reversed = TemplateContext::new("{name|upper|trim}")
        .with_transform("upper", BasicTransform::Uppercase)
        .with_transform("trim", BasicTransform::Trim);
    assert_eq!(reversed.render(&data).unwrap(), "AB");
}

#[test]
fn parse_error_fails_the_whole_render() {
    let context: TemplateContext<BasicTransform> = TemplateContext::new("ok {oops");
    let data = KeyValueSource::new();
    let err = context.render(&data).expect_err("unterminated interpolation");
    assert_eq!(err.offset, 3);
}

#[test]
fn later_registration_shadows_earlier() {
    let context = TemplateContext::new("{name|t}")
        .with_transform("t", BasicTransform::Uppercase)
        .with_transform("t", BasicTransform::Trim);
    let data = KeyValueSource::new().with("name", " x ");
    assert_eq!(context.render(&data).unwrap(), "x");
}

#[test]
fn path_safe_transform_strips_unsafe_characters() {
    let context = TemplateContext::new("{name|path_safe}")
        .with_transform("path_safe", BasicTransform::PathSafe);
    let data = KeyValueSource::new().with("name", "a/b\\c:d;e#f");
    assert_eq!(context.render(&data).unwrap(), "abcdef");
}

#[test]
fn lowercase_transform() {
    let context = TemplateContext::new("{name|lowercase}")
        .with_transform("lowercase", BasicTransform::Lowercase);
    let data = KeyValueSource::new().with("name", "MiXeD");
    assert_eq!(context.render(&data).unwrap(), "mixed");
}

#[test]
fn literal_text_renders_unchanged() {
    let context: TemplateContext<BasicTransform> = TemplateContext::new("plain text, no fields");
    let data = KeyValueSource::new();
    assert_eq!(context.render(&data).unwrap(), "plain text, no fields");
}

#[test]
fn value_reads_back_its_text() {
    assert_eq!(Value::Borrowed("abc").as_str(), "abc");
    assert_eq!(Value::Owned("owned".to_string()).as_str(), "owned");
    let d: Value = Default::default();
    assert_eq!(d.as_str(), "");
    let from_str: Value = "x".into();
    assert_eq!(from_str.as_str(), "x");
    let from_string: Value = "y".to_string().into();
    assert_eq!(from_string.as_str(), "y");
    let s = "z".to_string();
    let from_ref: Value = (&s).into();
    assert_eq!(from_ref.as_str(), "z");
}

#[test]
fn key_value_source_returns_latest_entry() {
    let data = KeyValueSource::new().with("k", "old").with("k", "new");
    assert_eq!(data.get("k").unwrap().as_str(), "new");
    assert!(data.get("other").is_none());
}

#[test]
fn default_config_matches_the_documented_values() {
    let config = photosort::config::Config::default();
    assert_eq!(config.source, "ingestion");
    assert_eq!(config.target, "photos");
    assert_eq!(config.template, "{year}/{date_time}-{name}");
}

#[test]
fn empty_template_renders_empty() {
    let context: TemplateContext<BasicTransform> = TemplateContext::new("");
    let data = KeyValueSource::new();
    assert_eq!(context.render(&data).unwrap(), "");
}

#[test]
fn adjacent_interpolations_render_back_to_back() {
    let context: TemplateContext<BasicTransform> = TemplateContext::new("{a}{b}");
    let data = KeyValueSource::new().with("a", "1").with("b", "2");
    assert_eq!(context.render(&data).unwrap(), "12");
}

#[test]
fn unknown_names_in_a_chain_pass_the_value_through() {
    let context = TemplateContext::new("{name|nope|upper}")
        .with_transform("upper", BasicTransform::Uppercase);
    let data = KeyValueSource::new().with("name", "ab");
    assert_eq!(context.render(&data).unwrap(), "AB");
}
