use ytapp::media::{ass_color, is_image};

#[test]
fn ass_color_formats_blue_green_red() {
    assert_eq!(ass_color("#ff8000").as_deref(), Some("&H0080FF&"));
    assert_eq!(ass_color("ff8000").as_deref(), Some("&H0080FF&"));
    assert_eq!(ass_color("#FFFFFF").as_deref(), Some("&HFFFFFF&"));
    assert_eq!(ass_color("#000000").as_deref(), Some("&H000000&"));
    assert_eq!(ass_color("#123abc").as_deref(), Some("&HBC3A12&"));
}

#[test]
fn ass_color_rejects_bad_input() {
    assert!(ass_color("#fff").is_none());
    assert!(ass_color("").is_none());
    assert!(ass_color("#gggggg").is_none());
    assert!(ass_color("#1234567").is_none());
    assert!(ass_color("12345").is_none());
}

#[test]
fn image_extensions_are_recognized() {
    assert!(is_image("a/b.png"));
    assert!(is_image("photo.JPG"));
    assert!(is_image("x.jpeg"));
    assert!(is_image("frame.bmp"));
    assert!(is_image("anim.gif"));
    assert!(!is_image("clip.mp4"));
    assert!(!is_image("noext"));
    assert!(!is_image(".gif"));
}
