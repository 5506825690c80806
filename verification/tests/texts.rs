use jinn_domain::auto_prune_worker::double_edit::extract_path_from_arguments;
use jinn_domain::chat_input::state::ChatInputBoxState;
use jinn_domain::chat_input::token::find_token_at_cursor;
use jinn_domain::chat_input::slash_command::{is_fuzzy_match, SlashCommand};
use jinn_domain::context::prompt_template::{PromptTemplate, PromptTemplateStore};
use jinn_domain::line_input::LineInput;
use jinn_domain::text::{
    char_text, cluster_count, first_word_of, is_blank, is_in_order, join, starts_with, text_eq,
    text_le, to_decimal, trim,
};

#[test]
fn numbers_are_written_in_decimal() {
    for n in [0, 7, 10, 99, 100, 4096, usize::MAX] {
        assert_eq!(to_decimal(n), n.to_string());
    }
}

#[test]
fn texts_are_ordered_by_their_characters() {
    let mut names = vec!["b", "", "ab", "a", "ä", "B"];
    names.sort();
    for pair in names.windows(2) {
        assert!(text_le(pair[0], pair[1]));
        assert!(!text_le(pair[1], pair[0]));
    }
    assert!(text_le("a", "a"));
}

#[test]
fn white_space_is_told_apart() {
    assert!(is_blank(""));
    assert!(is_blank(" \t\n\u{2003}"));
    assert!(!is_blank(" x"));
    assert_eq!(trim("\u{a0} a b \n"), "a b");
    assert_eq!(trim("   "), "");
    assert_eq!(first_word_of("  one two"), "one");
    assert_eq!(first_word_of(" "), "");
}

#[test]
fn clusters_are_counted_not_characters() {
    assert_eq!(cluster_count("e\u{301}a"), 2);
    assert_eq!(cluster_count("👩‍👩‍👧"), 1);
    assert_eq!(cluster_count("\r\n"), 1);
    assert_eq!(char_text('é'), "é");
}

#[test]
fn small_helpers_compare_and_join() {
    assert!(text_eq("ab", "ab") && !text_eq("ab", "a") && !text_eq("a", "b"));
    assert!(starts_with("abc", "ab") && starts_with("abc", "") && !starts_with("a", "ab"));
    assert_eq!(join(&["a".to_owned(), "b".to_owned()], ", "), "a, b");
    assert_eq!(join(&[], ", "), "");
    assert!(is_in_order("ace", "abcde") && !is_in_order("aec", "abcde"));
}

#[test]
fn a_fuzzy_match_ignores_case() {
    assert!(is_fuzzy_match("", "compact"));
    assert!(is_fuzzy_match("CA", "compact"));
    assert!(is_fuzzy_match("ä", "Ärger"));
    assert!(!is_fuzzy_match("tc", "compact"));
}

#[test]
fn commands_are_found_by_their_whole_name() {
    for command in [
        SlashCommand::Compact,
        SlashCommand::CompactAll,
        SlashCommand::New,
    ] {
        assert_eq!(SlashCommand::lookup(command.name()), Some(command));
        assert!(!command.description().is_empty());
    }
    assert_eq!(SlashCommand::lookup("comp"), None);
    assert_eq!(SlashCommand::lookup("Compact"), None);
}

#[test]
fn templates_are_found_by_filter_and_by_name() {
    let template = |name: &str| PromptTemplate {
        name: name.to_owned(),
        description: String::new(),
        body: format!("body of {name}"),
    };
    let store = PromptTemplateStore::from_vec(vec![template("plan"), template("Explain")]);
    let found: Vec<&str> = store
        .fuzzy_search("pla")
        .into_iter()
        .map(|t| t.name.as_str())
        .collect();
    assert_eq!(found, vec!["plan", "Explain"]);
    assert_eq!(store.fuzzy_search("x").len(), 1);
    assert_eq!(
        store.find_by_name("plan").map(|t| t.body.as_str()),
        Some("body of plan")
    );
    assert!(store.find_by_name("explain").is_none());
}

#[test]
fn a_line_is_edited_by_clusters() {
    let mut line = LineInput::new();
    line.set("ae\u{301}");
    assert_eq!(line.cursor_pos(), 2);
    line.cursor_left();
    line.insert_char('x');
    assert_eq!(line.input(), "axe\u{301}");
    line.delete_forward();
    assert_eq!(line.input(), "ax");
    line.delete();
    assert_eq!((line.input(), line.cursor_pos()), ("a", 1));
    line.paste("bc");
    assert_eq!((line.input(), line.cursor_pos()), ("abc", 3));
    line.cursor_right();
    assert_eq!(line.cursor_pos(), 3);
}

#[test]
fn the_path_is_read_from_the_arguments() {
    assert_eq!(
        extract_path_from_arguments("{\"path\": \"src/a\\u0062.rs\", \"n\": 1}").as_deref(),
        Some("src/ab.rs")
    );
    assert_eq!(extract_path_from_arguments("{\"path\": 3}"), None);
    assert_eq!(extract_path_from_arguments("not json"), None);
    assert_eq!(extract_path_from_arguments("[]"), None);
}

#[test]
fn white_space_is_a_fixed_list_of_characters() {
    for code in 0..=0x10ffff_u32 {
        if let Some(ch) = char::from_u32(code) {
            let listed = matches!(
                code,
                0x9..=0xd
                    | 0x20
                    | 0x85
                    | 0xa0
                    | 0x1680
                    | 0x2000..=0x200a
                    | 0x2028
                    | 0x2029
                    | 0x202f
                    | 0x205f
                    | 0x3000
            );
            assert_eq!(is_blank(&char_text(ch)), listed, "{code:x}");
        }
    }
}

#[test]
fn the_last_mark_before_the_cursor_starts_the_token() {
    let mut input = ChatInputBoxState::new();
    input.insert_text("#one #two");
    assert_eq!(
        find_token_at_cursor(&input, "#"),
        Some((5, "two".to_owned()))
    );
    input.reset();
    input.insert_text("#one#two");
    assert_eq!(find_token_at_cursor(&input, "#"), None);
}
