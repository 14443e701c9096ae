use absolute_cinema::term::{autodetect_term_size, same_text, try_autodetect_term_size};

#[test]
fn frame_size_follows_the_graphics_mode() {
    assert_eq!(autodetect_term_size(80, 25, "high", false), (80, 48));
    assert_eq!(autodetect_term_size(80, 25, "cheesegrater", true), (80, 49));
    assert_eq!(autodetect_term_size(80, 25, "braillebw", true), (320, 49));
    assert_eq!(autodetect_term_size(80, 25, "braillergb", false), (320, 48));
    assert_eq!(autodetect_term_size(80, 25, "sixelbw", false), (80, 148));
    assert_eq!(autodetect_term_size(80, 25, "sixelbw2", true), (80, 149));
    assert_eq!(autodetect_term_size(80, 25, "low", false), (80, 24));
    assert_eq!(autodetect_term_size(80, 25, "sixelrgb", true), (80, 25));
}

#[test]
fn text_comparison() {
    assert!(same_text("abc", "abc"));
    assert!(!same_text("abc", "abd"));
    assert!(!same_text("abc", "ab"));
    assert!(same_text("", ""));
}

#[test]
fn frame_size_is_refused_where_it_does_not_fit() {
    assert_eq!(try_autodetect_term_size(80, 25, "high", false), Some((80, 48)));
    assert_eq!(try_autodetect_term_size(80, 0, "high", true), None);
    assert_eq!(try_autodetect_term_size(80, 0, "low", false), None);
    assert_eq!(try_autodetect_term_size(80, 0, "low", true), Some((80, 0)));
    assert_eq!(try_autodetect_term_size(20000, 5, "braillebw", true), None);
    assert_eq!(try_autodetect_term_size(5, 20000, "sixelbw", true), None);
    assert_eq!(try_autodetect_term_size(5, 10922, "sixelbw", true), Some((5, 65531)));
}
