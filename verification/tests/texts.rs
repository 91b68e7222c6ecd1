//! Texts, numbers, lists and JSON.

use strobes::app::App;
use strobes::digits;
use strobes::editor;
use strobes::history;
use strobes::json;
use strobes::json::Json;
use strobes::order;
use strobes::pieces;
use strobes::ring;
use strobes::table::Table;
use strobes::text;
use strobes::workflow;

fn strings(v: &[&str]) -> Vec<String> {
    v.iter().map(|s| s.to_string()).collect()
}

#[test]
fn white_space_is_what_std_says() {
    for n in 0..=0x10ffffu32 {
        if let Some(c) = char::from_u32(n) {
            assert_eq!(text::char_is_white(c), c.is_whitespace(), "{n:x}");
        }
    }
}

#[test]
fn cutting_and_trimming_are_what_std_does() {
    for s in ["", " ", " a ", "a\n\nb\r\nc\r", "\u{a0}x\u{2003}", "a,b,,c,", "//a/b//", "ä→b"] {
        assert_eq!(pieces::str_trim(s), s.trim());
        assert_eq!(pieces::str_trim_end(s), s.trim_end());
        assert_eq!(pieces::str_lines(s), s.lines().map(String::from).collect::<Vec<_>>());
        assert_eq!(pieces::str_words(s), s.split_whitespace().map(String::from).collect::<Vec<_>>());
        assert_eq!(pieces::str_split_char(s, ','), s.split(',').map(String::from).collect::<Vec<_>>());
        assert_eq!(pieces::str_split_str(s, "a"), s.split("a").map(String::from).collect::<Vec<_>>());
        assert_eq!(pieces::str_trim_char(s, '/'), s.trim_matches('/'));
        assert_eq!(pieces::str_replace_char(s, 'b', "xy"), s.replace('b', "xy"));
        assert_eq!(text::char_count(s), s.chars().count());
        assert_eq!(text::str_byte_len(s), s.len());
        assert_eq!(text::str_contains(s, "a"), s.contains("a"));
        assert_eq!(text::str_starts_with(s, "/"), s.starts_with('/'));
        assert_eq!(text::str_ends_with(s, " "), s.ends_with(' '));
    }
    assert_eq!(text::truncate("abcdef", 3), "abc…");
    assert_eq!(text::truncate("abc", 3), "abc");
    assert_eq!(pieces::str_join(&strings(&["a", "b"]), ", "), "a, b");
    assert_eq!(pieces::str_repeat("ab", 3), "ababab");
}

#[test]
fn bytes_are_counted_to_character_boundaries() {
    assert_eq!(editor::str_cut("héllo", 3), "hé");
    assert_eq!(editor::str_cut("héllo", 100), "héllo");
    assert_eq!(editor::str_tail_bytes("héllo", 3), "llo");
}

#[test]
fn numbers_are_written_and_read() {
    assert_eq!(digits::u64_to_string(0), "0");
    assert_eq!(digits::u64_to_string(u64::MAX), u64::MAX.to_string());
    assert_eq!(digits::i64_to_string(i64::MIN), i64::MIN.to_string());
    assert_eq!(digits::usize_padded(7, 3), "007");
    assert_eq!(digits::str_pad_left("ab", ' ', 4), "  ab");
    assert_eq!(digits::str_pad_right("abcde", ' ', 4), "abcde");
    assert_eq!(digits::str_to_u64("18446744073709551615", u64::MAX), Some(u64::MAX));
    assert_eq!(digits::str_to_u64("18446744073709551616", u64::MAX), None);
    assert_eq!(digits::str_to_u64("+7", 9), Some(7));
    assert_eq!(digits::str_to_u64("", 9), None);
    assert_eq!(digits::str_to_i64("-9223372036854775808"), Some(i64::MIN));
    assert_eq!(digits::str_to_i64("- 1"), None);
}

#[test]
fn cursors_go_round() {
    assert_eq!(ring::step(0, 3, true), 2);
    assert_eq!(ring::step(2, 3, false), 0);
    assert_eq!(ring::step(ring::step(1, 3, true), 3, false), 1);
}

#[test]
fn words_stand_in_order_once() {
    let sorted = order::sorted_words(&strings(&["b", "a", "b", "Z", "ä"]));
    assert_eq!(sorted, strings(&["Z", "a", "b", "ä"]));
    assert!(order::str_precedes("a", "ab"));
    assert!(!order::str_precedes("b", "ab"));
    assert!(!order::str_precedes("a", "a"));
}

#[test]
fn tables_keep_one_value_of_a_name() {
    let mut t: Table<u32> = Table::new();
    t.insert("b", 1);
    t.insert("a", 2);
    t.insert("b", 3);
    *t.get_mut_or("c", 4) += 1;
    *t.get_mut_or("a", 9) += 1;
    assert_eq!(t.get("b"), Some(&3));
    assert_eq!(t.get("c"), Some(&5));
    assert_eq!(t.get("a"), Some(&3));
    assert_eq!(t.get("d"), None);
    let names: Vec<&str> = t.entries.iter().map(|e| e.0.as_str()).collect();
    assert_eq!(names, vec!["a", "b", "c"]);
}

#[test]
fn names_become_titles() {
    assert_eq!(workflow::title_case("recon-phase_one"), "Recon Phase One");
    assert_eq!(workflow::title_case("éclair ǆ"), "Éclair Ǆ");
    assert_eq!(workflow::title_case("--"), "");
    assert!(workflow::is_secret_name("API_KEY"));
    assert!(workflow::is_secret_name("dbPassword"));
    assert!(!workflow::is_secret_name("TARGET"));
}

#[test]
fn json_is_read_and_written() {
    let j = json::parse("{\"b\": [1, 2.5, null, true], \"a\": {\"x\": \"é\\n\"}}").unwrap();
    assert_eq!(json::to_text(&j), "{\"a\":{\"x\":\"é\\n\"},\"b\":[1,2.5,null,true]}");
    assert_eq!(json::opt_text(json::opt_get(j.get("a"), "x")), Some("é\n".to_string()));
    assert_eq!(json::opt_items(j.get("b")).map(|v| v.len()), Some(4));
    assert!(json::parse("{").is_none());
    assert!(json::parse("").is_none());
    assert_eq!(json::to_pretty_text(&json::parse("[1]").unwrap()), "[\n  1\n]");
    assert_eq!(json::opt_int(Some(&Json::Num("42".to_string()))), Some(42));
    assert_eq!(json::opt_int(Some(&Json::Num("4.2".to_string()))), None);
}

#[test]
fn values_are_shown_in_one_short_line() {
    let j = json::parse("\"a\\nb\"").unwrap();
    assert_eq!(history::compact_json(Some(&j), 10), "a b");
    let k = json::parse("{\"command\": \"ls -la /tmp\"}").unwrap();
    assert_eq!(history::compact_json(Some(&k), 8), "{\"comman…");
    assert_eq!(history::compact_json(None, 8), "");
}

#[test]
fn a_new_session_greets() {
    let a = App::new("thread".into(), "http://x".into(), "ten".into(), "organisation".into());
    assert_eq!(a.thread_id, "thread");
    assert_eq!(a.auth_line, "✔ authenticated · tenant: ten · http://x · org organisa");
    assert!(a.follow && !a.pinned && !a.running);
}
