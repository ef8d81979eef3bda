use repeated_photos::filter::{
    default_extensions, has_image_extension, is_image, is_image_extension,
};

#[test]
fn default_extensions_are_the_six() {
    assert_eq!(default_extensions(), vec!["jpg", "jpeg", "png", "gif", "bmp", "tiff"]);
}

#[test]
fn accepted_extensions_are_images() {
    let accepted = default_extensions();
    for path in ["a.jpg", "b.jpeg", "dir/c.png", "/abs/dir/d.gif", "e.bmp", "f.tiff"] {
        assert!(is_image(path, &accepted), "{}", path);
    }
}

#[test]
fn other_extensions_are_not_images() {
    let accepted = default_extensions();
    for path in ["a.txt", "b.tif", "c.webp", "d.jpg.bak", "e.pngx", "f.xpng"] {
        assert!(!is_image(path, &accepted), "{}", path);
    }
}

#[test]
fn extension_case_matters() {
    let accepted = default_extensions();
    assert!(!is_image("photo.JPG", &accepted));
    assert!(!is_image("photo.Png", &accepted));
}

#[test]
fn paths_without_extension_are_not_images() {
    let accepted = default_extensions();
    for path in ["", "png", "dir/jpg", ".png", "dir.png/file", "photo."] {
        assert!(!is_image(path, &accepted), "{}", path);
    }
}

#[test]
fn only_the_last_extension_counts() {
    let accepted = default_extensions();
    assert!(is_image("archive.tar.png", &accepted));
    assert!(!is_image("photo.png.txt", &accepted));
}

#[test]
fn configured_extensions_replace_the_defaults() {
    let accepted = vec!["webp".to_string()];
    assert!(is_image("a.webp", &accepted));
    assert!(!is_image("a.png", &accepted));
    assert!(!is_image("a.png", &vec![]));
}

#[test]
fn extension_lookup_is_exact() {
    let accepted = default_extensions();
    assert!(has_image_extension("png", &accepted));
    assert!(has_image_extension("tiff", &accepted));
    assert!(!has_image_extension("", &accepted));
    assert!(!has_image_extension("pn", &accepted));
    assert!(!has_image_extension("PNG", &accepted));
    assert!(!has_image_extension(".png", &accepted));
}

#[test]
fn missing_extension_is_no_image() {
    let accepted = default_extensions();
    assert!(!is_image_extension(None, &accepted));
    assert!(is_image_extension(Some("gif".to_string()), &accepted));
    assert!(!is_image_extension(Some("exe".to_string()), &accepted));
}

#[test]
fn accepted_extension_with_a_dot_never_matches() {
    let accepted = vec!["tar.gz".to_string()];
    assert!(!is_image("x.tar.gz", &accepted));
    assert!(!has_image_extension("gz", &accepted));
    assert!(has_image_extension("tar.gz", &accepted));
}

#[test]
fn plain_file_names_go_by_their_last_extension() {
    let accepted = default_extensions();
    assert!(is_image("photo.jpg", &accepted));
    assert!(is_image("photo.backup.tiff", &accepted));
    assert!(!is_image("photo", &accepted));
    assert!(!is_image("photo.jpg.orig", &accepted));
}
