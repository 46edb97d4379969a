use opencode_gpui::json::JsonValue;
use opencode_gpui::model::Part;
use opencode_gpui::part_merge::{append_part_field, merge_part};

fn file(id: &str) -> Part {
    Part {
        id: id.into(),
        session_id: "ses".into(),
        message_id: "msg".into(),
        kind: "file".into(),
        data: vec![(
            "url".into(),
            JsonValue::String("data:image/png;base64,AQID".into()),
        )],
    }
}

fn text_part(id: &str, text: &str) -> Part {
    Part {
        id: id.into(),
        session_id: "ses".into(),
        message_id: "msg".into(),
        kind: "text".into(),
        data: vec![("text".into(), JsonValue::String(text.into()))],
    }
}

#[test]
fn authoritative_file_replaces_optimistic_part_with_the_same_url() {
    let mut parts = vec![file("optimistic")];
    merge_part(&mut parts, file("server"), None);
    assert_eq!(parts.len(), 1);
    assert_eq!(parts[0].id, "server");
}

#[test]
fn a_new_part_is_appended() {
    let mut parts = vec![text_part("a", "one")];
    merge_part(&mut parts, text_part("b", "two"), None);
    assert_eq!(parts.len(), 2);
    assert_eq!(parts[1].text(), Some("two"));
}

#[test]
fn a_delta_extends_a_known_part() {
    let mut parts = vec![text_part("a", "hel")];
    merge_part(&mut parts, text_part("a", "ignored"), Some("lo"));
    assert_eq!(parts.len(), 1);
    assert_eq!(parts[0].text(), Some("hello"));
}

#[test]
fn appending_to_a_missing_field_starts_it() {
    let mut part = text_part("a", "x");
    append_part_field(&mut part, "reasoning", "think");
    assert_eq!(part.str_field("reasoning"), Some("think"));
    append_part_field(&mut part, "text", "y");
    assert_eq!(part.text(), Some("xy"));
}
