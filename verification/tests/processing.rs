use cutout::{plan_captures, process_image, CaptureSpec, Origin};
use image::GenericImageView;

fn spec(name: &str, x: u32, y: u32, width: u32, height: u32) -> CaptureSpec {
    CaptureSpec {
        name: name.to_string(),
        x,
        y,
        width,
        height,
    }
}

#[test]
fn test_plan_captures_one_entry_per_spec_in_order() {
    let specs = vec![spec("a", 0, 0, 10, 10), spec("b", 20, 30, 40, 50)];
    let plan = plan_captures(1000, 1000, Origin::TopLeft, &specs, "/d/in.png").unwrap();
    assert_eq!(plan.len(), 2);
    assert_eq!(plan[0].name, "a");
    assert_eq!(plan[0].abs_x, 0);
    assert_eq!(plan[0].abs_y, 0);
    assert_eq!(plan[0].out_path, "/d/in_a.png");
    assert_eq!(plan[1].name, "b");
    assert_eq!(plan[1].abs_x, 20);
    assert_eq!(plan[1].abs_y, 30);
    assert_eq!(plan[1].out_path, "/d/in_b.png");
}

#[test]
fn test_plan_captures_bottom_left() {
    let specs = vec![spec("a", 0, 0, 100, 100)];
    let plan = plan_captures(1000, 1000, Origin::BottomLeft, &specs, "in.jpg").unwrap();
    assert_eq!(plan[0].abs_y, 900);
    assert_eq!(plan[0].out_path, "in_a.jpg");
}

#[test]
fn test_plan_captures_stops_at_first_failure() {
    let specs = vec![
        spec("ok", 0, 0, 10, 10),
        spec("bad1", 999, 999, 100, 100),
        spec("bad2", 5000, 0, 1, 1),
    ];
    let err = plan_captures(1000, 1000, Origin::TopLeft, &specs, "in.png").unwrap_err();
    // The first failing capture decides the error.
    assert!(err.message().contains("bad1"));
    assert!(err.message().contains("exceeds image bounds"));
}

#[test]
fn test_plan_captures_path_error() {
    let specs = vec![spec("a", 0, 0, 10, 10)];
    let err = plan_captures(1000, 1000, Origin::TopLeft, &specs, "/").unwrap_err();
    assert!(err.message().contains("has no file name"));
}

#[test]
fn test_process_image_crops_every_spec() {
    let img = image::DynamicImage::new_rgb8(100, 80);
    let specs = vec![spec("a", 0, 0, 10, 10), spec("b", 50, 40, 20, 30)];
    let (crops, failure) = process_image(&img, "/d/in.png", Origin::TopLeft, &specs);
    assert!(failure.is_none());
    assert_eq!(crops.len(), 2);
    assert_eq!(crops[0].out_path, "/d/in_a.png");
    assert_eq!(crops[0].image.dimensions(), (10, 10));
    assert_eq!(crops[1].out_path, "/d/in_b.png");
    assert_eq!(crops[1].image.dimensions(), (20, 30));
}

#[test]
fn test_process_image_bottom_left_crop_dimensions() {
    let img = image::DynamicImage::new_rgb8(1000, 1000);
    let specs = vec![spec("tile", 50, 200, 100, 100)];
    let (crops, failure) = process_image(&img, "big.png", Origin::BottomLeft, &specs);
    assert!(failure.is_none());
    assert_eq!(crops.len(), 1);
    assert_eq!(crops[0].out_path, "big_tile.png");
    assert_eq!(crops[0].image.dimensions(), (100, 100));
}

#[test]
fn test_process_image_propagates_bounds_error() {
    let img = image::DynamicImage::new_rgb8(100, 80);
    let specs = vec![spec("big", 0, 0, 200, 10)];
    let (crops, failure) = process_image(&img, "in.png", Origin::TopLeft, &specs);
    assert!(crops.is_empty());
    assert!(failure.unwrap().message().contains("exceeds image bounds"));
}

#[test]
fn test_process_image_keeps_crops_before_a_failure() {
    // A failure on the second capture still yields the first capture's
    // crop: within one image, earlier captures' outputs are not rolled
    // back when a later capture fails.
    let img = image::DynamicImage::new_rgb8(100, 80);
    let specs = vec![
        spec("first", 0, 0, 10, 10),
        spec("bad", 90, 0, 50, 10),
        spec("never", 0, 0, 5, 5),
    ];
    let (crops, failure) = process_image(&img, "in.png", Origin::TopLeft, &specs);
    assert_eq!(crops.len(), 1);
    assert_eq!(crops[0].out_path, "in_first.png");
    assert_eq!(crops[0].image.dimensions(), (10, 10));
    let msg = failure.unwrap().message();
    assert!(msg.contains("bad"));
    assert!(msg.contains("exceeds image bounds"));
}
