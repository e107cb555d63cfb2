use pq::formatter::CustomFormatter;

#[test]
fn newline_after_top_level_object() {
    let mut f = CustomFormatter::new(true);
    assert!(f.pretty());
    f.begin_object();
    f.begin_object();
    assert!(!f.end_object());
    assert!(f.end_object());
    assert!(!CustomFormatter::new(false).pretty());
}
