use ytapp::schema::CaptionOptions;

#[test]
fn empty_caption_options_leave_every_choice_open() {
    let opts = CaptionOptions::empty();
    assert!(opts.font.is_none());
    assert!(opts.font_path.is_none());
    assert!(opts.style.is_none());
    assert!(opts.size.is_none());
    assert!(opts.position.is_none());
    assert!(opts.color.is_none());
    assert!(opts.background.is_none());
}

#[test]
fn caption_options_clone_copies_fields() {
    let mut opts = CaptionOptions::empty();
    opts.font = Some("Arial".to_string());
    opts.size = Some(24);
    opts.position = Some("top".to_string());
    let copy = opts.clone();
    assert_eq!(copy.font.as_deref(), Some("Arial"));
    assert_eq!(copy.size, Some(24));
    assert_eq!(copy.position.as_deref(), Some("top"));
    assert!(copy.color.is_none());
}
