//! Text persistence, date expansion, link spans and fuzzy ranking.

use vault_tui::date::{format_with_date, get_date, change_moment_syntax_to_chrono_syntax, DateParts};
use vault_tui::document::{Document, Motion};
use vault_tui::fuzzy::rank_candidates;
use vault_tui::link::{accept_autocomplete, has_open_span, link_target_at};
use vault_tui::text::{parse_text, serialize_lines};
use vault_tui::vault::new_note_name;

fn s2v(s: &str) -> Vec<char> {
    s.chars().collect()
}

fn v2s(v: &Vec<char>) -> String {
    v.iter().collect()
}

fn lines(ls: &[&str]) -> Vec<Vec<char>> {
    ls.iter().map(|l| s2v(l)).collect()
}

#[test]
fn save_then_open_reproduces_the_lines() {
    let original = lines(&["first", "", "third line"]);
    let persisted = serialize_lines(&original);
    assert_eq!(v2s(&persisted), "first\n\nthird line\n");
    let back = parse_text(&persisted);
    assert_eq!(back.len(), original.len());
    for (a, b) in back.iter().zip(original.iter()) {
        assert_eq!(v2s(a), v2s(b));
    }
}

#[test]
fn parsing_splits_like_a_line_reader() {
    let back = parse_text(&s2v("a\nbc"));
    assert_eq!(back.len(), 2);
    assert_eq!(v2s(&back[0]), "a");
    assert_eq!(v2s(&back[1]), "bc");

    let back = parse_text(&s2v(""));
    assert_eq!(back.len(), 0);

    let back = parse_text(&s2v("\n\n"));
    assert_eq!(back.len(), 2);
    assert_eq!(v2s(&back[0]), "");
    assert_eq!(v2s(&back[1]), "");
}

#[test]
fn compact_tokens_translate_greedily_longest_first() {
    assert_eq!(change_moment_syntax_to_chrono_syntax("M"), "%-m");
    assert_eq!(change_moment_syntax_to_chrono_syntax("MM"), "%m");
    assert_eq!(change_moment_syntax_to_chrono_syntax("MMM"), "%b");
    assert_eq!(change_moment_syntax_to_chrono_syntax("MMMM"), "%B");
    assert_eq!(change_moment_syntax_to_chrono_syntax("Y"), "%Y");
    assert_eq!(change_moment_syntax_to_chrono_syntax("DD"), "%d");
    assert_eq!(change_moment_syntax_to_chrono_syntax("D"), "%-d");
    assert_eq!(change_moment_syntax_to_chrono_syntax("H"), "%-H");
    assert_eq!(change_moment_syntax_to_chrono_syntax("HH"), "%H");
    assert_eq!(change_moment_syntax_to_chrono_syntax("m"), "%-M");
    assert_eq!(change_moment_syntax_to_chrono_syntax("mm"), "%M");
    assert_eq!(change_moment_syntax_to_chrono_syntax("x"), "");

    assert_eq!(get_date("YMMDDHHmm-"), "%Y%m%d%H%M-");
    assert_eq!(get_date("Y-MM-DD"), "%Y-%m-%d");
    assert_eq!(get_date("MMMMM"), "%B%-m");
    assert_eq!(get_date("YY"), "%Y%Y");
    assert_eq!(get_date("DDD"), "%d%-d");
    assert_eq!(get_date(""), "");
}

#[test]
fn dates_render_with_padding_and_names() {
    let p = DateParts { year: 2024, month: 3, day: 7, hour: 9, minute: 5 };
    assert_eq!(
        format_with_date("{{date:YMMDDHHmm-}}", p),
        "202403070905-"
    );
    assert_eq!(format_with_date("{{date:D.M.Y}}", p), "7.3.2024");
    assert_eq!(format_with_date("{{date:MMMM}}", p), "March");
    assert_eq!(format_with_date("{{date:MMM}}", p), "Mar");
    assert_eq!(
        format_with_date("note of {{date:Y-MM-DD}} end", p),
        "note of 2024-03-07 end"
    );
    // an item without a complete span passes through
    assert_eq!(format_with_date("plain words", p), "plain words");

    let early = DateParts { year: 33, month: 12, day: 31, hour: 23, minute: 59 };
    assert_eq!(format_with_date("{{date:YMMDDHHmm}}", early), "003312312359");
}

#[test]
fn note_names_carry_a_timestamp_and_the_extension() {
    let name = new_note_name(&s2v("ideas"));
    let s = v2s(&name);
    assert!(s.ends_with("ideas.md"));
    // the compact stamp renders year, month, day, hour and minute plus the
    // dash before the typed name
    assert!(s.len() >= "202403070905-".len() + "ideas.md".len());
}

#[test]
fn link_targets_drop_the_alias() {
    let line = s2v("see [[my-note|Shown Text]] here");
    // cursor on the opening bracket pair
    let r = link_target_at(&line, 5).expect("span under cursor resolves");
    assert_eq!(v2s(&r), "my-note.md");

    let line = s2v("see [[my-note]] here");
    let r = link_target_at(&line, 5).expect("plain span resolves");
    assert_eq!(v2s(&r), "my-note.md");

    // before the span there is no link
    assert!(link_target_at(&line, 0).is_none());
    // a span that never closes is no link
    let line = s2v("see [[my-note");
    assert!(link_target_at(&line, 6).is_none());
}

#[test]
fn open_spans_engage_autocomplete_and_accepting_rewrites() {
    assert!(has_open_span(&s2v("a [[que")));
    assert!(!has_open_span(&s2v("a [[done]]")));
    assert!(!has_open_span(&s2v("plain")));

    let mut doc = Document::from_lines(lines(&["see [[my"]), None);
    doc.move_cursor(Motion::End);
    accept_autocomplete(&mut doc, &s2v("my-note.md"));
    assert_eq!(v2s(&doc.lines[0]), "see [[my-note]]");

    // only the text from `[[` to the cursor is replaced: what follows the
    // cursor survives, and the yank register is untouched
    let mut doc = Document::from_lines(lines(&["[[ab cd"]), None);
    doc.yank = lines(&["keep"]);
    doc.move_cursor(Motion::Forward);
    doc.move_cursor(Motion::Forward);
    doc.move_cursor(Motion::Forward);
    doc.move_cursor(Motion::Forward);
    assert_eq!(doc.cursor(), (0, 4));
    accept_autocomplete(&mut doc, &s2v("x.md"));
    assert_eq!(v2s(&doc.lines[0]), "[[x]] cd");
    assert_eq!(doc.yank.len(), 1);
    assert_eq!(v2s(&doc.yank[0]), "keep");
    assert_eq!(doc.cursor(), (0, 5));
}

#[test]
fn ranking_keeps_matches_ordered_by_score_then_reverse_name() {
    let files = lines(&["apple.md", "apply.md", "banana.md"]);
    let out = rank_candidates(&files, &s2v("appl"));
    let names: Vec<String> = out.iter().map(|v| v2s(v)).collect();
    assert_eq!(names.len(), 2);
    assert!(names.contains(&"apple.md".to_string()));
    assert!(names.contains(&"apply.md".to_string()));

    // an equal score falls back to reverse-lexical order
    let files = lines(&["aa", "ab"]);
    let out = rank_candidates(&files, &s2v("a"));
    let names: Vec<String> = out.iter().map(|v| v2s(v)).collect();
    assert_eq!(names, vec!["ab".to_string(), "aa".to_string()]);

    // nothing matches an impossible query
    let out = rank_candidates(&files, &s2v("zq"));
    assert_eq!(out.len(), 0);
}

#[test]
fn searches_wrap_around_the_buffer() {
    let mut doc = Document::from_lines(lines(&["hello", "low world"]), None);
    doc.set_pattern(s2v("lo"));
    assert!(doc.search_forward(false));
    assert_eq!(doc.cursor(), (0, 3));
    assert!(doc.search_forward(false));
    assert_eq!(doc.cursor(), (1, 0));
    assert!(doc.search_forward(false));
    assert_eq!(doc.cursor(), (0, 3));
    assert!(doc.search_back(false));
    assert_eq!(doc.cursor(), (1, 0));

    doc.set_pattern(s2v("absent"));
    assert!(!doc.search_forward(false));
    assert_eq!(doc.cursor(), (1, 0));
}

#[test]
fn templates_expand_title_and_dates() {
    let mut vault = vault_tui::vault::Vault::new(Vec::new());
    vault.finish_open(s2v("diary.md"), lines(&["entry"]));
    let p = DateParts { year: 2024, month: 3, day: 7, hour: 9, minute: 5 };
    let template = lines(&["title: {{title}}", "on {{date:Y-MM-DD}}"]);
    vault.insert_template_lines(&template, p);
    let tab = &vault.tabs[0];
    let doc = &tab.docs[tab.current];
    let all: Vec<String> = doc.lines.iter().map(|l| v2s(l)).collect();
    assert_eq!(
        all,
        vec![
            "title: diary.md".to_string(),
            "on 2024-03-07".to_string(),
            "entry".to_string()
        ]
    );
}
