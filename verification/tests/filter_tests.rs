use yapper::buffer::ScrollbackBuffer;
use yapper::filter::LineFilter;

#[test]
fn test_no_filters() {
    let filter = LineFilter::new();
    assert!(filter.should_display("anything"));
}

#[test]
fn test_include_filter() {
    let mut filter = LineFilter::new();
    filter.add_include("ERROR|WARN").unwrap();
    assert!(filter.should_display("[ERROR] something broke"));
    assert!(filter.should_display("[WARN] low battery"));
    assert!(!filter.should_display("[INFO] all good"));
}

#[test]
fn test_exclude_filter() {
    let mut filter = LineFilter::new();
    filter.add_exclude("DEBUG").unwrap();
    assert!(filter.should_display("[INFO] hello"));
    assert!(!filter.should_display("[DEBUG] verbose stuff"));
}

#[test]
fn test_combined_filters() {
    let mut filter = LineFilter::new();
    filter.add_include("\\[.*\\]").unwrap(); // Must have brackets
    filter.add_exclude("DEBUG").unwrap(); // But not DEBUG
    assert!(filter.should_display("[INFO] hello"));
    assert!(!filter.should_display("[DEBUG] verbose"));
    assert!(!filter.should_display("no brackets here"));
}

#[test]
fn test_clear() {
    let mut filter = LineFilter::new();
    filter.add_include("test").unwrap();
    assert_eq!(filter.count(), 1);
    filter.clear();
    assert_eq!(filter.count(), 0);
    assert!(filter.should_display("anything"));
}

#[test]
fn test_invalid_regex() {
    let mut filter = LineFilter::new();
    assert!(filter.add_include("[invalid").is_err());
}

#[test]
fn invalid_regex_message_and_no_change() {
    let mut filter = LineFilter::new();
    let err = filter.add_exclude("(unclosed").unwrap_err();
    assert!(err.starts_with("Invalid regex: "));
    assert!(err.len() > "Invalid regex: ".len());
    assert_eq!(filter.count(), 0);
    assert!(!filter.is_active);
}

#[test]
fn descriptions_and_remove() {
    let mut filter = LineFilter::new();
    filter.add_include("ERROR").unwrap();
    filter.add_exclude("DEBUG").unwrap();
    assert_eq!(filter.descriptions(), vec!["+ERROR".to_string(), "-DEBUG".to_string()]);
    filter.remove(5);
    assert_eq!(filter.count(), 2);
    filter.remove(0);
    assert_eq!(filter.descriptions(), vec!["-DEBUG".to_string()]);
    assert!(filter.is_active);
    filter.remove(0);
    assert_eq!(filter.count(), 0);
    assert!(!filter.is_active);
}

#[test]
fn filtering_off_shows_everything() {
    let mut filter = LineFilter::new();
    filter.add_include("ERROR").unwrap();
    filter.is_active = false;
    assert!(filter.should_display("[INFO] fine"));
}

#[test]
fn visible_lines_follow_the_rules() {
    let mut buf = ScrollbackBuffer::new(100);
    buf.push_bytes(b"ERROR one\nok two\nERROR three\npart", 0);
    let mut filter = LineFilter::new();
    assert_eq!(filter.visible_lines(&buf), vec![0, 1, 2, 3]);
    filter.add_include("ERROR").unwrap();
    assert_eq!(filter.visible_lines(&buf), vec![0, 2, 3]);
}
