use editor_core::vimcommand::{
    command_matches, complete_step, completion_start, longest_common_prefix, parse_command, path_completions,
    split_path_exec, CommandKind, CompletionStart, AFTER_PREFIX,
};

fn strings(v: &[&str]) -> Vec<String> {
    v.iter().map(|s| s.to_string()).collect()
}

#[test]
fn commands_are_parsed_into_kind_and_argument() {
    let p = parse_command("  w   notes.txt extra");
    assert_eq!(p.kind, CommandKind::Write);
    assert_eq!(p.name, "w");
    assert_eq!(p.arg, Some("notes.txt".to_string()));
    assert_eq!(parse_command("quit!").kind, CommandKind::ForceQuit);
    assert_eq!(parse_command("edit x").kind, CommandKind::Open);
    assert_eq!(parse_command("").kind, CommandKind::Unknown);
}

#[test]
fn command_names_with_a_prefix_keep_their_order() {
    assert_eq!(command_matches("q"), strings(&["q", "quit", "q!", "quit!"]));
    assert_eq!(command_matches("ne"), strings(&["next"]));
    assert!(command_matches("z").is_empty());
}

#[test]
fn longest_common_prefix_of_strings() {
    assert_eq!(longest_common_prefix(&strings(&["apple", "apply", "ape"])), "ap");
    assert_eq!(longest_common_prefix(&strings(&["same"])), "same");
    assert_eq!(longest_common_prefix(&strings(&["abc", "xyz"])), "");
    assert_eq!(longest_common_prefix(&Vec::new()), "");
}

#[test]
fn paths_split_at_the_last_slash() {
    assert_eq!(split_path_exec("src/ma"), ("src/".to_string(), "ma".to_string()));
    assert_eq!(split_path_exec("ma"), (".".to_string(), "ma".to_string()));
}

#[test]
fn directory_entries_complete_a_file_name() {
    let entries = vec![("main.rs".to_string(), false), ("mod".to_string(), true), ("x".to_string(), false)];
    assert_eq!(path_completions("src/", "m", &entries), strings(&["src/main.rs", "src/mod/"]));
    assert_eq!(path_completions(".", "m", &entries), strings(&["main.rs", "mod/"]));
}

#[test]
fn what_the_first_tab_completes() {
    assert!(matches!(completion_start(""), CompletionStart::Nothing));
    match completion_start("wr") {
        CompletionStart::Commands { matches, original } => {
            assert_eq!(matches, strings(&["write"]));
            assert_eq!(original, "wr");
        },
        _ => panic!("expected command names"),
    }
    match completion_start("o src/m") {
        CompletionStart::Paths { dir, prefix, original } => {
            assert_eq!((dir.as_str(), prefix.as_str(), original.as_str()), ("src/", "m", "o src/m"));
        },
        _ => panic!("expected a path"),
    }
    assert!(matches!(completion_start("syntax x"), CompletionStart::Nothing));
}

#[test]
fn tab_steps() {
    let m = strings(&["quit", "quit!"]);
    assert_eq!(complete_step("qu", &m, None, Some("qu")), (Some("quit".to_string()), Some(AFTER_PREFIX)));
    assert_eq!(complete_step("quit", &m, Some(AFTER_PREFIX), Some("qu")), (Some("quit".to_string()), Some(0)));
    assert_eq!(complete_step("quit", &m, Some(0), Some("qu")), (Some("quit!".to_string()), Some(1)));
    assert_eq!(complete_step("quit!", &m, Some(1), Some("qu")), (Some("quit".to_string()), Some(0)));
    let one = strings(&["src/main.rs"]);
    assert_eq!(complete_step("o src/m", &one, None, Some("o src/m")), (Some("o src/main.rs".to_string()), Some(0)));
}

#[test]
fn common_prefix_of_wide_characters_is_cut_at_the_shared_count_in_bytes() {
    // Two characters are shared; cut at byte 2 the first string gives "é".
    assert_eq!(longest_common_prefix(&strings(&["éab", "éac"])), "é");
    // Byte 2 falls inside "é": the shared characters themselves.
    assert_eq!(longest_common_prefix(&strings(&["aéx", "aéy"])), "aé");
    // A first string that is all shared is taken whole.
    assert_eq!(longest_common_prefix(&strings(&["é", "éa"])), "é");
}
