//! The message box, the transcript's view and the rendered Markdown.

use strobes::app::App;
use strobes::markdown;

fn app() -> App {
    App::new("t".into(), "http://x".into(), "ten".into(), "org".into())
}

#[test]
fn renders_markdown_styles() {
    let lines = markdown::render("# Title\n\nSome **bold** text and `code`.\n\n- one\n- two\n");
    assert!(!lines.is_empty(), "expected rendered lines");
    let any_bold = lines.iter().flat_map(|l| &l.spans).any(|s| s.style.bold);
    assert!(any_bold, "expected at least one bold span from markdown");
    let joined: String = lines
        .iter()
        .flat_map(|l| l.spans.iter().map(|s| s.content.as_str()))
        .collect();
    assert!(joined.contains("one") && joined.contains("two"), "list text missing: {joined:?}");
    assert!(!joined.contains('#'), "heading '#' markers should be stripped: {joined:?}");
    assert!(joined.contains("Title"), "heading text missing: {joined:?}");
    assert!(joined.contains('•'), "expected bullet marker: {joined:?}");
}

#[test]
fn renders_table_and_heading_after_text() {
    let md = "Ready to use it for real? 🚀\n\n## Greeting\n\n| Field | Value |\n|---|---|\n| Target URL | https://test.com |\n| Scope | a |\n";
    let lines = markdown::render(md);
    let joined: String = lines
        .iter()
        .map(|l| l.spans.iter().map(|s| s.content.as_str()).collect::<String>())
        .collect::<Vec<_>>()
        .join("\n");
    assert!(joined.contains("Target URL"), "table cell missing: {joined:?}");
    assert!(joined.contains('│'), "table column separator missing: {joined:?}");
    assert!(!joined.contains("Target URLhttps"), "table cells run together: {joined:?}");
    assert!(joined.contains("Greeting"), "heading missing: {joined:?}");
    assert!(!joined.contains("##"), "heading marker leaked: {joined:?}");
}

#[test]
fn insert_and_horizontal_movement() {
    let mut a = app();
    for c in "hello".chars() {
        a.input_insert_char(c);
    }
    assert_eq!(a.input, "hello");
    assert_eq!(a.input_cursor, 5);
    a.input_left();
    a.input_left();
    assert_eq!(a.input_cursor, 3);
    a.input_insert_char('X');
    assert_eq!(a.input, "helXlo");
    assert_eq!(a.input_cursor, 4);
    a.input_home();
    assert_eq!(a.input_cursor, 0);
    a.input_end();
    assert_eq!(a.input_cursor, a.input.len());
}

#[test]
fn backspace_and_delete_at_cursor() {
    let mut a = app();
    for c in "abc".chars() {
        a.input_insert_char(c);
    }
    a.input_left();
    a.input_backspace();
    assert_eq!(a.input, "ac");
    assert_eq!(a.input_cursor, 1);
    a.input_delete();
    assert_eq!(a.input, "a");
}

#[test]
fn multiline_newline_and_vertical_nav() {
    let mut a = app();
    for c in "ab".chars() {
        a.input_insert_char(c);
    }
    a.input_newline();
    for c in "cde".chars() {
        a.input_insert_char(c);
    }
    assert_eq!(a.input, "ab\ncde");
    assert_eq!(a.input_cursor, 6);
    assert!(a.input_up());
    assert_eq!(a.input_cursor, 2);
    assert!(!a.input_up());
    assert_eq!(a.input_cursor, 2);
    assert!(a.input_down());
    assert_eq!(a.input_cursor, 5);
    assert!(!a.input_down());
}

#[test]
fn long_lines_wrap_into_visual_rows() {
    let mut a = app();
    for c in "abcdef".chars() {
        a.input_insert_char(c);
    }
    let (rows, crow, ccol) = a.input_wrap(3);
    assert_eq!(rows.len(), 2);
    assert_eq!((crow, ccol), (1, 3));
    assert_eq!(a.input_visual_rows(3), 2);
    a.input_clear();
    for c in "a\nb".chars() {
        a.input_insert_char(c);
    }
    assert_eq!(a.input_visual_rows(10), 2);
}

#[test]
fn clear_resets_cursor() {
    let mut a = app();
    a.input_insert_char('x');
    a.input_clear();
    assert_eq!(a.input, "");
    assert_eq!(a.input_cursor, 0);
    assert_eq!(a.input_visual_rows(10), 1);
}

#[test]
fn utf8_boundaries_are_respected() {
    let mut a = app();
    for c in "héllo".chars() {
        a.input_insert_char(c);
    }
    a.input_left();
    a.input_backspace();
    assert_eq!(a.input, "hélo");
    a.input_home();
    a.input_right();
    a.input_delete();
    assert_eq!(a.input, "hlo");
}

#[test]
fn scrolling_up_pins_through_streaming() {
    let mut a = app();
    a.max_scroll = 100;
    a.scroll = 100;
    a.follow = true;

    a.scroll_lines(true, 10);
    assert!(a.is_pinned());
    assert!(!a.follow);
    assert_eq!(a.scroll, 90);

    a.follow = true;
    assert!(a.is_pinned(), "must stay pinned while reading during a run");

    a.scroll_lines(false, 50);
    assert!(!a.is_pinned());
    assert!(a.follow);

    a.scroll_lines(true, 5);
    assert!(a.is_pinned());
    a.jump_to_bottom();
    assert!(!a.is_pinned());
    assert!(a.follow);
}
