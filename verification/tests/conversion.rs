use cutout::{convert_coordinates, CaptureSpec, Origin};

fn spec(name: &str, x: u32, y: u32, width: u32, height: u32) -> CaptureSpec {
    CaptureSpec {
        name: name.to_string(),
        x,
        y,
        width,
        height,
    }
}

#[test]
fn test_convert_coordinates_top_left_origin() {
    let spec = spec("test", 100, 200, 50, 75);
    let (abs_x, abs_y) = convert_coordinates(&spec, Origin::TopLeft, 1000, 1000).unwrap();
    assert_eq!(abs_x, 100);
    assert_eq!(abs_y, 200);
}

#[test]
fn test_convert_coordinates_bottom_left_origin() {
    // For a 1000px tall image, capturing from bottom-left (0, 0) with height 100
    // should convert to top-left (0, 900)
    let spec = spec("test", 0, 0, 100, 100);
    let (abs_x, abs_y) = convert_coordinates(&spec, Origin::BottomLeft, 1000, 1000).unwrap();
    assert_eq!(abs_x, 0);
    assert_eq!(abs_y, 900);
}

#[test]
fn test_convert_coordinates_bottom_left_origin_middle() {
    // For a 1000px tall image, capturing from bottom-left (50, 200) with height 100
    // should convert to top-left (50, 700)
    let spec = spec("test", 50, 200, 100, 100);
    let (abs_x, abs_y) = convert_coordinates(&spec, Origin::BottomLeft, 1000, 1000).unwrap();
    assert_eq!(abs_x, 50);
    assert_eq!(abs_y, 700);
}

#[test]
fn test_convert_coordinates_top_left_at_edge() {
    let spec = spec("test", 900, 900, 100, 100);
    let (abs_x, abs_y) = convert_coordinates(&spec, Origin::TopLeft, 1000, 1000).unwrap();
    assert_eq!(abs_x, 900);
    assert_eq!(abs_y, 900);
}

#[test]
fn test_convert_coordinates_bottom_left_at_top() {
    // For a 1000px tall image, y=900 height=100 should give abs_y=0
    let spec = spec("test", 0, 900, 100, 100);
    let (abs_x, abs_y) = convert_coordinates(&spec, Origin::BottomLeft, 1000, 1000).unwrap();
    assert_eq!(abs_x, 0);
    assert_eq!(abs_y, 0);
}

#[test]
fn test_convert_coordinates_x_out_of_bounds() {
    let spec = spec("test", 1000, 0, 100, 100);
    let result = convert_coordinates(&spec, Origin::TopLeft, 1000, 1000);
    assert!(result.is_err());
    assert!(result
        .unwrap_err()
        .message()
        .contains("is outside image bounds"));
}

#[test]
fn test_convert_coordinates_y_out_of_bounds_top_left() {
    let spec = spec("test", 0, 1000, 100, 100);
    let result = convert_coordinates(&spec, Origin::TopLeft, 1000, 1000);
    assert!(result.is_err());
    assert!(result
        .unwrap_err()
        .message()
        .contains("is outside image bounds"));
}

#[test]
fn test_convert_coordinates_y_out_of_bounds_bottom_left() {
    let spec = spec("test", 0, 1001, 100, 100);
    let result = convert_coordinates(&spec, Origin::BottomLeft, 1000, 1000);
    assert!(result.is_err());
    assert!(result
        .unwrap_err()
        .message()
        .contains("is outside image height"));
}

#[test]
fn test_convert_coordinates_width_exceeds_bounds() {
    let spec = spec("test", 900, 0, 200, 100);
    let result = convert_coordinates(&spec, Origin::TopLeft, 1000, 1000);
    assert!(result.is_err());
    assert!(result
        .unwrap_err()
        .message()
        .contains("exceeds image bounds"));
}

#[test]
fn test_convert_coordinates_height_exceeds_bounds() {
    let spec = spec("test", 0, 900, 100, 200);
    let result = convert_coordinates(&spec, Origin::TopLeft, 1000, 1000);
    assert!(result.is_err());
    assert!(result
        .unwrap_err()
        .message()
        .contains("exceeds image bounds"));
}

#[test]
fn test_convert_coordinates_bottom_left_overflow() {
    // When y + height > img_height in bottom-left coordinates
    let spec = spec("test", 0, 950, 100, 100);
    let result = convert_coordinates(&spec, Origin::BottomLeft, 1000, 1000);
    assert!(result.is_err());
}

#[test]
fn test_bottom_left_y_above_height_gets_height_error_not_bounds() {
    let spec = spec("test", 5000, 1001, 100, 100);
    let err = convert_coordinates(&spec, Origin::BottomLeft, 1000, 1000).unwrap_err();
    let msg = err.message();
    assert!(msg.contains("is outside image height"));
    assert!(!msg.contains("is outside image bounds"));
    assert!(!msg.contains("exceeds image bounds"));
}

#[test]
fn test_exceeds_bounds_message_exact() {
    let spec = spec("test", 900, 0, 200, 100);
    let err = convert_coordinates(&spec, Origin::TopLeft, 1000, 1000).unwrap_err();
    assert_eq!(
        err.message(),
        "Capture 'test' rectangle (900, 0, 200x100) exceeds image bounds 1000x1000"
    );
}

#[test]
fn test_bottom_left_underflow_message_exact() {
    let spec = spec("test", 0, 950, 100, 100);
    let err = convert_coordinates(&spec, Origin::BottomLeft, 1000, 1000).unwrap_err();
    assert_eq!(
        err.message(),
        "Capture 'test' (y=950, height=100) is outside image height=1000"
    );
}

#[test]
fn test_origin_outside_message_exact() {
    let spec = spec("test", 1000, 0, 100, 100);
    let err = convert_coordinates(&spec, Origin::TopLeft, 1000, 1000).unwrap_err();
    assert_eq!(
        err.message(),
        "Capture 'test' origin (1000, 0) is outside image bounds 1000x1000"
    );
}

#[test]
fn test_y_outside_height_message_exact() {
    let spec = spec("test", 0, 1001, 100, 100);
    let err = convert_coordinates(&spec, Origin::BottomLeft, 1000, 1000).unwrap_err();
    assert_eq!(
        err.message(),
        "Capture 'test' y=1001 is outside image height=1000"
    );
}
