use cutout::make_output_path;

#[test]
fn test_make_output_path_with_extension() {
    let output = make_output_path("/path/to/image.jpg", "left").unwrap();
    assert_eq!(output, "/path/to/image_left.jpg");
}

#[test]
fn test_make_output_path_with_multiple_dots() {
    let output = make_output_path("/path/to/my.image.file.png", "crop").unwrap();
    assert_eq!(output, "/path/to/my.image.file_crop.png");
}

#[test]
fn test_make_output_path_no_extension() {
    let output = make_output_path("/path/to/image", "output").unwrap();
    assert_eq!(output, "/path/to/image_output.png");
}

#[test]
fn test_make_output_path_different_extensions() {
    let extensions = vec!["jpg", "png", "gif", "bmp", "tiff", "webp"];
    for ext in extensions {
        let input = format!("/path/to/image.{ext}");
        let output = make_output_path(&input, "test").unwrap();
        assert_eq!(output, format!("/path/to/image_test.{ext}"));
    }
}

#[test]
fn test_make_output_path_special_characters_in_name() {
    let output = make_output_path("/path/to/image-with-dashes.jpg", "segment_name").unwrap();
    assert_eq!(output, "/path/to/image-with-dashes_segment_name.jpg");
}

#[test]
fn test_make_output_path_bare_file_name() {
    let output = make_output_path("img.png", "a").unwrap();
    assert_eq!(output, "img_a.png");
}

#[test]
fn test_make_output_path_hidden_file_defaults_to_png() {
    // A leading dot leaves an empty stem, so the whole name is the stem.
    let output = make_output_path("/a/.gitignore", "x").unwrap();
    assert_eq!(output, "/a/.gitignore_x.png");
}

#[test]
fn test_make_output_path_trailing_dot_defaults_to_png() {
    // A trailing dot leaves an empty extension, so the whole name is the stem.
    let output = make_output_path("/a/name.", "x").unwrap();
    assert_eq!(output, "/a/name._x.png");
}

#[test]
fn test_make_output_path_ignores_trailing_separator() {
    // Trailing separators do not count: the last segment is the file name.
    let output = make_output_path("/path/to/", "left").unwrap();
    assert_eq!(output, "/path/to_left.png");
}

#[test]
fn test_make_output_path_root_has_no_file_name() {
    let err = make_output_path("/", "left").unwrap_err();
    assert_eq!(err.message(), "Input path '/' has no file name");
}

#[test]
fn test_make_output_path_dot_dot_has_no_file_name() {
    let err = make_output_path("/a/..", "left").unwrap_err();
    assert_eq!(err.message(), "Input path '/a/..' has no file name");
    assert!(make_output_path("..", "left").is_err());
}

#[test]
fn test_make_output_path_empty_path() {
    let result = make_output_path("", "left");
    assert!(result.is_err());
}
