use rotatron::text::{caption_for, extension_of, file_name_of, matches_lower, output_name, str_eq};

#[test]
fn str_eq_basic() {
    assert!(str_eq("", ""));
    assert!(str_eq("cat.png", "cat.png"));
    assert!(str_eq("🔄", "🔄"));
    assert!(!str_eq("cat", "dog"));
    assert!(!str_eq("cat", "cats"));
    assert!(!str_eq("↩", "↩️"));
}

#[test]
fn file_name_of_url() {
    assert_eq!(
        file_name_of("https://cdn.example.net/att/123/cat.png"),
        Some(String::from("cat.png"))
    );
    assert_eq!(file_name_of("a/b/c.gif"), Some(String::from("c.gif")));
}

#[test]
fn file_name_of_trailing_slash_is_empty() {
    assert_eq!(file_name_of("https://cdn.example.net/att/"), Some(String::from("")));
}

#[test]
fn file_name_of_no_slash_is_nothing() {
    assert_eq!(file_name_of("cat.png"), None);
    assert_eq!(file_name_of(""), None);
}

#[test]
fn extension_of_names() {
    assert_eq!(extension_of("cat.png"), Some(String::from("png")));
    assert_eq!(extension_of("archive.tar.gz"), Some(String::from("gz")));
    assert_eq!(extension_of("cat."), Some(String::from("")));
    assert_eq!(extension_of("cat"), None);
    // a hidden file's leading dot starts no suffix
    assert_eq!(extension_of(".png"), None);
}

#[test]
fn matches_lower_folds_capitals_one_way() {
    assert!(matches_lower("PNG", "png"));
    assert!(matches_lower("Png", "png"));
    assert!(matches_lower("png", "png"));
    assert!(!matches_lower("png", "PNG"));
    assert!(!matches_lower("pn", "png"));
    assert!(!matches_lower("jpg", "png"));
}

#[test]
fn output_name_prefixes_marker() {
    assert_eq!(output_name("cat.png"), String::from("ROTATED_cat.png"));
    assert_eq!(output_name(""), String::from("ROTATED_"));
}

#[test]
fn caption_names_the_author() {
    assert_eq!(caption_for("<@42>"), String::from("Rotated image from <@42>"));
}
