use cutout::{parse_capture_spec, parse_pair, reconstruct, Origin};

#[test]
fn test_parse_capture_spec_valid() {
    let spec = parse_capture_spec("left:200x300:1200x1850").unwrap();
    assert_eq!(spec.name, "left");
    assert_eq!(spec.x, 200);
    assert_eq!(spec.y, 300);
    assert_eq!(spec.width, 1200);
    assert_eq!(spec.height, 1850);
}

#[test]
fn test_parse_capture_spec_zero_coordinates() {
    let spec = parse_capture_spec("top:0x0:100x100").unwrap();
    assert_eq!(spec.name, "top");
    assert_eq!(spec.x, 0);
    assert_eq!(spec.y, 0);
    assert_eq!(spec.width, 100);
    assert_eq!(spec.height, 100);
}

#[test]
fn test_parse_capture_spec_missing_parts() {
    let result = parse_capture_spec("left:200x300");
    assert!(result.is_err());
    assert!(result
        .unwrap_err()
        .message()
        .contains("Expected format: <name>:<x>x<y>:<width>x<height>"));
}

#[test]
fn test_parse_capture_spec_too_many_parts() {
    let result = parse_capture_spec("left:200x300:1200x1850:extra");
    assert!(result.is_err());
}

#[test]
fn test_parse_capture_spec_invalid_number() {
    let result = parse_capture_spec("left:abcx300:1200x1850");
    assert!(result.is_err());
    assert!(result.unwrap_err().message().contains("Failed to parse"));
}

#[test]
fn test_parse_capture_spec_zero_width() {
    let result = parse_capture_spec("left:200x300:0x1850");
    assert!(result.is_err());
    assert!(result
        .unwrap_err()
        .message()
        .contains("Width and height must be positive"));
}

#[test]
fn test_parse_capture_spec_zero_height() {
    let result = parse_capture_spec("left:200x300:1200x0");
    assert!(result.is_err());
    assert!(result
        .unwrap_err()
        .message()
        .contains("Width and height must be positive"));
}

#[test]
fn test_parse_pair_valid() {
    let result = parse_pair("100x200", 'x', "test", "spec").unwrap();
    assert_eq!(result, (100, 200));
}

#[test]
fn test_parse_pair_missing_second() {
    let result = parse_pair("100", 'x', "test", "spec");
    assert!(result.is_err());
    assert!(result.unwrap_err().message().contains("Missing second"));
}

#[test]
fn test_parse_pair_too_many_parts() {
    let result = parse_pair("100x200x300", 'x', "test", "spec");
    assert!(result.is_err());
    assert!(result.unwrap_err().message().contains("Too many components"));
}

#[test]
fn test_parse_pair_invalid_first_number() {
    let result = parse_pair("abcx200", 'x', "test", "spec");
    assert!(result.is_err());
    assert!(result
        .unwrap_err()
        .message()
        .contains("Failed to parse first"));
}

#[test]
fn test_parse_pair_invalid_second_number() {
    let result = parse_pair("100xabc", 'x', "test", "spec");
    assert!(result.is_err());
    assert!(result
        .unwrap_err()
        .message()
        .contains("Failed to parse second"));
}

#[test]
fn test_origin_from_str_top_left_variants() {
    assert_eq!(Origin::from_str("tl").unwrap(), Origin::TopLeft);
    assert_eq!(Origin::from_str("top-left").unwrap(), Origin::TopLeft);
    assert_eq!(Origin::from_str("top_left").unwrap(), Origin::TopLeft);
    assert_eq!(Origin::from_str("TL").unwrap(), Origin::TopLeft);
    assert_eq!(Origin::from_str("Top-Left").unwrap(), Origin::TopLeft);
}

#[test]
fn test_origin_from_str_bottom_left_variants() {
    assert_eq!(Origin::from_str("bl").unwrap(), Origin::BottomLeft);
    assert_eq!(Origin::from_str("bottom-left").unwrap(), Origin::BottomLeft);
    assert_eq!(Origin::from_str("bottom_left").unwrap(), Origin::BottomLeft);
    assert_eq!(Origin::from_str("BL").unwrap(), Origin::BottomLeft);
    assert_eq!(Origin::from_str("Bottom-Left").unwrap(), Origin::BottomLeft);
}

#[test]
fn test_origin_from_str_invalid() {
    let result = Origin::from_str("invalid");
    assert!(result.is_err());
    assert!(result.unwrap_err().contains("Invalid origin"));
}

#[test]
fn test_parse_then_reconstruct_roundtrip() {
    let spec = parse_capture_spec("left:200x300:1200x1850").unwrap();
    let rebuilt = reconstruct(&spec);
    assert_eq!(rebuilt, "left:200x300:1200x1850");
    let reparsed = parse_capture_spec(&rebuilt).unwrap();
    assert_eq!(reparsed.name, spec.name);
    assert_eq!(reparsed.x, spec.x);
    assert_eq!(reparsed.y, spec.y);
    assert_eq!(reparsed.width, spec.width);
    assert_eq!(reparsed.height, spec.height);
}

#[test]
fn test_parse_accepts_leading_plus_like_std() {
    let spec = parse_capture_spec("a:+1x2:3x4").unwrap();
    assert_eq!(spec.x, 1);
    assert_eq!(spec.y, 2);
}

#[test]
fn test_parse_rejects_u32_overflow() {
    let result = parse_capture_spec("a:4294967296x0:1x1");
    assert!(result.is_err());
    assert!(result
        .unwrap_err()
        .message()
        .contains("Failed to parse first"));
}

#[test]
fn test_parse_empty_name_is_accepted() {
    let spec = parse_capture_spec(":1x2:3x4").unwrap();
    assert_eq!(spec.name, "");
    assert_eq!(spec.width, 3);
}

#[test]
fn test_parse_invalid_format_message_exact() {
    let err = parse_capture_spec("left").unwrap_err();
    assert_eq!(
        err.message(),
        "Invalid capture spec 'left'. Expected format: <name>:<x>x<y>:<width>x<height>"
    );
}

#[test]
fn test_zero_width_message_exact() {
    let err = parse_capture_spec("left:200x300:0x1850").unwrap_err();
    assert_eq!(
        err.message(),
        "Width and height must be positive in capture spec 'left:200x300:0x1850'"
    );
}

#[test]
fn test_reconstruct_renders_zero_values() {
    let spec = parse_capture_spec("top:0x0:100x100").unwrap();
    assert_eq!(reconstruct(&spec), "top:0x0:100x100");
}
