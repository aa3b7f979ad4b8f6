use grayscale::naming::{is_supported_image_name, output_file_name};

fn bytes(s: &str) -> Vec<u8> {
    s.as_bytes().to_vec()
}

#[test]
fn accepts_the_three_image_suffixes() {
    assert!(is_supported_image_name(&bytes("photo.jpg")));
    assert!(is_supported_image_name(&bytes("photo.jpeg")));
    assert!(is_supported_image_name(&bytes("photo.png")));
}

#[test]
fn suffix_match_is_case_sensitive() {
    assert!(!is_supported_image_name(&bytes("photo.JPG")));
    assert!(!is_supported_image_name(&bytes("photo.Png")));
}

#[test]
fn rejects_other_names() {
    assert!(!is_supported_image_name(&bytes("notes.txt")));
    assert!(!is_supported_image_name(&bytes("photo.gif")));
    assert!(!is_supported_image_name(&bytes("jpg")));
    assert!(!is_supported_image_name(&bytes("photojpg")));
    assert!(!is_supported_image_name(&bytes("")));
}

#[test]
fn bare_suffix_counts_as_a_match() {
    assert!(is_supported_image_name(&bytes(".jpg")));
    assert!(is_supported_image_name(&bytes(".png")));
}

#[test]
fn output_name_takes_a_four_byte_prefix() {
    assert_eq!(
        output_file_name(&bytes("test1.png")),
        Some(bytes("test_output.jpg"))
    );
    assert_eq!(
        output_file_name(&bytes("abcd")),
        Some(bytes("abcd_output.jpg"))
    );
}

#[test]
fn output_name_rejects_short_names() {
    assert_eq!(output_file_name(&bytes("abc")), None);
    assert_eq!(output_file_name(&bytes("")), None);
}
