use bucklog::json_log::{Color, Fields, Level};

#[test]
fn level_names() {
    assert_eq!(Level::INFO.to_string(), "INFO");
    assert_eq!(Level::ERROR.to_string(), "ERROR");
    assert_eq!(Level::TRACE.to_string(), "TRACE");
    assert_eq!(Level::DEBUG.to_string(), "DEBUG");
    assert_eq!(Level::WARN.to_string(), "WARN");
}

#[test]
fn level_colors_match_egui() {
    let pairs = [
        (Level::INFO, egui::Color32::GREEN),
        (Level::ERROR, egui::Color32::RED),
        (Level::TRACE, egui::Color32::BLUE),
        (Level::DEBUG, egui::Color32::ORANGE),
        (Level::WARN, egui::Color32::YELLOW),
    ];
    for (level, expected) in pairs {
        let c: Color = level.color();
        assert_eq!([c.r, c.g, c.b, c.a], expected.to_array(), "{:?}", level);
    }
}

fn names_and_values(f: &Fields) -> Vec<(String, String)> {
    (0..f.len()).map(|i| (f.name(i).clone(), f.value(i).clone())).collect()
}

#[test]
fn fields_keep_insertion_order() {
    let mut f = Fields::new();
    f.insert("b".to_string(), "1".to_string());
    f.insert("a".to_string(), "2".to_string());
    assert_eq!(names_and_values(&f), vec![("b".to_string(), "1".to_string()), ("a".to_string(), "2".to_string())]);
}

#[test]
fn inserting_a_present_field_replaces_its_value_in_place() {
    let mut f = Fields::new();
    f.insert("b".to_string(), "1".to_string());
    f.insert("a".to_string(), "2".to_string());
    f.insert("b".to_string(), "3".to_string());
    assert_eq!(f.len(), 2);
    assert_eq!(names_and_values(&f), vec![("b".to_string(), "3".to_string()), ("a".to_string(), "2".to_string())]);
}

#[test]
fn no_fields() {
    assert_eq!(Fields::new().len(), 0);
}
