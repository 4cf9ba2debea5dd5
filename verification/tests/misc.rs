use copilot_lmstudio_config::diff::{
    compare_lines, decide, decision_of, has_changes, render_changes, ChangeKind, DiffDecision,
    LineChange,
};
use copilot_lmstudio_config::paths::{
    app_data_fallback, backup_file_name, settings_location, SettingsLocation, SettingsRoot,
    VsCodeEditor,
};
use copilot_lmstudio_config::proxy::bind_address;
use copilot_lmstudio_config::text::{
    char_is_whitespace, chars_of, has_prefix_at, same_bytes, same_text, strip_suffixes_end,
    trim_bounds,
};

fn change(kind: ChangeKind, text: &str) -> LineChange {
    LineChange { kind, text: text.to_string() }
}

#[test]
fn texts_are_compared_line_by_line() {
    let changes = compare_lines("a\nb\nc", "a\nb\nC");
    assert_eq!(
        changes,
        vec![
            change(ChangeKind::Equal, "a\n"),
            change(ChangeKind::Equal, "b\n"),
            change(ChangeKind::Delete, "c\n"),
            change(ChangeKind::Insert, "C\n"),
        ]
    );
    assert!(has_changes(&changes));
    assert_eq!(render_changes(&changes), "\x1b[31m-c\n\x1b[0m\x1b[32m+C\n\x1b[0m");
}

#[test]
fn equal_texts_have_no_changes() {
    let changes = compare_lines("a\nb\n", "a\nb\n");
    assert!(!has_changes(&changes));
    assert_eq!(render_changes(&changes), "");
    assert!(!has_changes(&compare_lines("", "")));
    assert!(has_changes(&compare_lines("", "x")));
    assert!(!has_changes(&Vec::new()));
}

#[test]
fn only_yes_applies() {
    for answer in ["y", "Y", "yes", "YES", "  yEs \n", "\ty\r\n", "\u{2003}Yes\u{a0}"] {
        assert_eq!(decide(answer), DiffDecision::Apply);
    }
    for answer in ["", "\n", "n", "no", "yes!", "y e s", "yy", "ye", "oui"] {
        assert_eq!(decide(answer), DiffDecision::Cancel);
    }
}

#[test]
fn a_trimmed_lower_case_answer_is_read_exactly() {
    assert_eq!(decision_of("y"), DiffDecision::Apply);
    assert_eq!(decision_of("yes"), DiffDecision::Apply);
    for said in ["", "Y", "YES", " y", "y ", "ye", "yess", "n", "no"] {
        assert_eq!(decision_of(said), DiffDecision::Cancel);
    }
}

#[test]
fn settings_are_found_per_system_and_editor() {
    let at = |root, relative: &str| Some(SettingsLocation { root, relative: relative.to_string() });
    assert_eq!(
        settings_location("macos", VsCodeEditor::Code),
        at(SettingsRoot::Home, "Library/Application Support/Code/User/settings.json")
    );
    assert_eq!(
        settings_location("macos", VsCodeEditor::CodeInsiders),
        at(SettingsRoot::Home, "Library/Application Support/Code - Insiders/User/settings.json")
    );
    assert_eq!(
        settings_location("windows", VsCodeEditor::Code),
        at(SettingsRoot::AppData, "Code/User/settings.json")
    );
    assert_eq!(
        settings_location("windows", VsCodeEditor::CodeInsiders),
        at(SettingsRoot::AppData, "Code - Insiders/User/settings.json")
    );
    assert_eq!(
        settings_location("linux", VsCodeEditor::Code),
        at(SettingsRoot::Home, ".config/Code/User/settings.json")
    );
    assert_eq!(
        settings_location("linux", VsCodeEditor::CodeInsiders),
        at(SettingsRoot::Home, ".config/Code - Insiders/User/settings.json")
    );
    assert_eq!(settings_location("freebsd", VsCodeEditor::Code), None);
    assert_eq!(settings_location("", VsCodeEditor::Code), None);
    assert_eq!(app_data_fallback(), "AppData/Roaming");
}

#[test]
fn backups_are_named_by_day_and_index() {
    assert_eq!(backup_file_name("settings", 2025, 9, 24, 0), "settings.250924-0.backup.json");
    assert_eq!(backup_file_name("settings", 2000, 12, 1, 17), "settings.001201-17.backup.json");
    assert_eq!(backup_file_name("s.x", 1999, 1, 31, 4294967295), "s.x.990131-4294967295.backup.json");
    assert_eq!(backup_file_name("", 5, 100, 0, 0), ".0510000-0.backup.json");
    assert_eq!(backup_file_name("s", -5, 1, 2, 3), format!("s.{:02}0102-3.backup.json", -5 % 100));
    assert_eq!(backup_file_name("s", -2025, 1, 2, 3), format!("s.{:02}0102-3.backup.json", -2025 % 100));
    assert_eq!(backup_file_name("s", -300, 1, 2, 3), format!("s.{:02}0102-3.backup.json", -300 % 100));
    assert_eq!(backup_file_name("s", i32::MIN, 1, 2, 3), format!("s.{:02}0102-3.backup.json", i32::MIN % 100));
}

#[test]
fn the_listen_address_has_interface_and_port() {
    assert_eq!(bind_address(false, 3000), "127.0.0.1:3000");
    assert_eq!(bind_address(true, 3000), "0.0.0.0:3000");
    assert_eq!(bind_address(true, 0), "0.0.0.0:0");
    assert_eq!(bind_address(false, 65535), "127.0.0.1:65535");
}

#[test]
fn white_space_is_what_the_standard_library_says() {
    for code in 0..0x11000u32 {
        if let Some(c) = char::from_u32(code) {
            assert_eq!(char_is_whitespace(c), c.is_whitespace());
        }
    }
}

#[test]
fn text_helpers_agree_with_the_standard_library() {
    assert!(same_text("abc", "abc"));
    assert!(!same_text("abc", "abd"));
    assert!(!same_text("abc", "ab"));
    assert!(same_text("", ""));
    assert!(same_bytes(b"\x00\xff", b"\x00\xff"));
    assert!(!same_bytes(b"a", b""));
    assert_eq!(chars_of("aé\u{1F600}"), vec!['a', 'é', '\u{1F600}']);
    let text: Vec<char> = "data: data: x".chars().collect();
    let prefix: Vec<char> = "data: ".chars().collect();
    assert!(has_prefix_at(&text, 0, &prefix));
    assert!(has_prefix_at(&text, 6, &prefix));
    assert!(!has_prefix_at(&text, 1, &prefix));
    assert!(!has_prefix_at(&text, 12, &prefix));
    assert!(has_prefix_at(&text, 13, &[]));
    let padded: Vec<char> = " \t a b \n".chars().collect();
    assert_eq!(trim_bounds(&padded, 0), (3, 6));
    assert_eq!(trim_bounds(&padded, 5), (5, 6));
    assert_eq!(trim_bounds(&padded, 8), (8, 8));
    let blank: Vec<char> = "  ".chars().collect();
    assert_eq!(trim_bounds(&blank, 0), (2, 2));
    let url: Vec<char> = "a/v1/v1".chars().collect();
    let v1: Vec<char> = "/v1".chars().collect();
    assert_eq!(strip_suffixes_end(&url, 7, &v1), 1);
    assert_eq!(strip_suffixes_end(&url, 6, &v1), 6);
    assert_eq!(strip_suffixes_end(&v1, 3, &v1), 0);
}
