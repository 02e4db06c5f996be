use shell_ai::completion::{completion, completion_from, completion_plan, completion_query, entry_candidate, EntryKind, ListFrom};
use shell_ai::history::{is_recorded, parse_history, record_addition, record_bytes};
use shell_ai::theme::{check_theme_name, theme_file_name, ThemeError};

/// Appends a prompt to a history file's bytes unless it is already there.
fn record(file: &mut Vec<u8>, prompt: &str) {
    let history = parse_history(file).unwrap();
    if let Some(record) = record_addition(&history, prompt) {
        file.extend(record);
    }
}

const FILE: EntryKind = EntryKind { is_dir: false, is_file: true, executable: false };
const DIRECTORY: EntryKind = EntryKind { is_dir: true, is_file: false, executable: true };
const PROGRAM: EntryKind = EntryKind { is_dir: false, is_file: true, executable: true };

/// The directory `/work/` that a completion runs in, and the absolute
/// directory `/work/` names it by.
const WORK: &str = "/work/";

/// Completion over listings of directory entries, as the application does
/// it over the file system: `cwd` lists the working directory `/work/`
/// (also reachable as an absolute path), `home` the home directory.
fn complete_in(
    text: &str,
    cursor: usize,
    cwd: &[(&str, EntryKind)],
    path: &[(&str, EntryKind)],
    home: Option<&[(&str, EntryKind)]>,
) -> Option<String> {
    let query = completion_query(text, cursor)?;
    let plan = completion_plan(&query, home.is_some())?;
    let listed: &[(&str, EntryKind)] = match &plan.list {
        ListFrom::Home(relative) if relative.is_empty() => home?,
        ListFrom::Home(_) => &[],
        ListFrom::WorkingDirectory(directory) if directory.is_empty() || directory == WORK => cwd,
        ListFrom::WorkingDirectory(_) => &[],
    };
    let listing = listed.iter().map(|(name, kind)| (name.to_string(), Some(*kind))).collect();
    let path_listing = path.iter().map(|(name, kind)| (name.to_string(), Some(*kind))).collect();
    completion_from(&query, &plan, &listing, &path_listing)
}

#[test]
fn records_nul_delimited_multiline_prompts() {
    let mut file = Vec::new();
    record(&mut file, "first line\nsecond line");
    record(&mut file, "next prompt");
    record(&mut file, "first line\nsecond line");

    assert_eq!(file, b"first line\nsecond line\0next prompt\0");
}

#[test]
fn reads_nul_delimited_multiline_prompt_history() {
    assert_eq!(
        parse_history(&b"first line\nsecond line\0next prompt\0".to_vec()).unwrap(),
        ["first line\nsecond line", "next prompt"]
    );
}

#[test]
fn records_each_prompt_once() {
    let mut file = Vec::new();
    record(&mut file, "first\nsecond");
    record(&mut file, "first\nsecond");

    assert_eq!(parse_history(&file).unwrap(), ["first\nsecond"]);
}

#[test]
fn history_skips_empty_entries_and_refuses_invalid_text() {
    assert_eq!(parse_history(&b"\0\0a\0\0b".to_vec()).unwrap(), ["a", "b"]);
    assert!(parse_history(&Vec::new()).unwrap().is_empty());
    let error = parse_history(&vec![b'a', 0, 0xff, 0]).unwrap_err();
    assert!(error.message().starts_with("prompt history contains invalid UTF-8"));
    assert_eq!(record_bytes("é"), vec![0xc3, 0xa9, 0]);
}

#[test]
fn loads_component_colors_from_the_selected_theme_file() {
    assert!(check_theme_name("night").is_ok());
    assert_eq!(theme_file_name("night"), "night.toml");
    assert_eq!(check_theme_name("../night"), Err(ThemeError::InvalidName));
    assert!(check_theme_name("").is_err());
    assert!(check_theme_name("dark_mode-2").is_ok());
    assert_eq!(
        ThemeError::InvalidName.message(),
        "theme must use only letters, numbers, hyphens, and underscores"
    );
}

#[test]
fn completes_paths_common_prefix_and_unicode_without_touching_suffix() {
    let root = [("folder", DIRECTORY), ("résumé", FILE), ("report-one", FILE), ("report-two", FILE)];
    assert_eq!(complete_in("open fol later", 8, &root, &[], None), Some("der/".into()));
    assert_eq!(complete_in("ré", 3, &root, &[], None), Some("sumé".into()));
    assert_eq!(complete_in("rep", 3, &root, &[], None), Some("ort-".into()));
    assert_eq!(complete_in("~/fol", 5, &root, &[], Some(&root)), Some("der/".into()));
    assert_eq!(complete_in("~/fol", 5, &root, &[], None), None);
    assert_eq!(complete_in("$HOME/fol", 9, &root, &[], None), None);
    assert_eq!(complete_in("absent", 6, &root, &[], None), None);
    assert_eq!(complete_in("report-", 7, &root, &[], None), None);
    assert_eq!(complete_in("ré", 2, &root, &[], None), None);
    assert_eq!(complete_in("rep", 4, &root, &[], None), None);
    let absolute = format!("{WORK}fol");
    assert_eq!(complete_in(&absolute, absolute.len(), &root, &[], None), Some("der/".into()));
}

#[test]
fn completion_looks_in_home_only_when_there_is_one_and_on_path_only_without_a_directory() {
    let home_query = completion_query("~/fol", 5).unwrap();
    assert_eq!(completion_plan(&home_query, false), None);
    assert_eq!(
        completion_plan(&home_query, true),
        Some(shell_ai::completion::CompletionPlan { list: ListFrom::Home(String::new()), search_path: false })
    );
    let bare = completion_query("ls", 2).unwrap();
    assert_eq!(
        completion_plan(&bare, false),
        Some(shell_ai::completion::CompletionPlan { list: ListFrom::WorkingDirectory(String::new()), search_path: true })
    );
    let nested = completion_query("src/ma", 6).unwrap();
    assert_eq!(
        completion_plan(&nested, false),
        Some(shell_ai::completion::CompletionPlan {
            list: ListFrom::WorkingDirectory("src/".to_owned()),
            search_path: false
        })
    );
}

#[test]
fn completes_only_executable_commands_from_path() {
    let bin = [("command-test", PROGRAM), ("command-data", FILE), ("linked-command", PROGRAM)];
    let root = [("bin", DIRECTORY), ("linked-directory", DIRECTORY)];
    assert_eq!(complete_in("run command-", 12, &root, &bin, None), Some("test".into()));
    assert_eq!(complete_in("linked-c", 8, &root, &bin, None), Some("ommand".into()));
    assert_eq!(complete_in("linked-d", 8, &root, &[], None), Some("irectory/".into()));
}

#[test]
fn completion_query_splits_the_word_before_the_cursor() {
    let q = completion_query("cat ~/docs/re", 13).unwrap();
    assert_eq!(q.token, "~/docs/re");
    assert_eq!(q.directory, "~/docs/");
    assert_eq!(q.prefix, "re");
    assert_eq!(q.home_relative.as_deref(), Some("docs/"));
    assert!(completion_query("echo ", 5).is_none());
    assert!(completion_query("a\"b", 3).is_none());
}

#[test]
fn candidates_hide_dot_files_and_control_characters() {
    assert_eq!(entry_candidate("", "", false, ".hidden", Some(FILE)), None);
    assert_eq!(entry_candidate(".", "", false, ".hidden", Some(FILE)).as_deref(), Some(".hidden"));
    assert_eq!(entry_candidate("", "", false, "bad\u{7}", Some(FILE)), None);
    assert_eq!(entry_candidate("", "d/", false, "x", None), None);
    assert_eq!(entry_candidate("x", "d/", false, "xy", Some(DIRECTORY)).as_deref(), Some("d/xy/"));
    assert_eq!(entry_candidate("x", "", true, "xy", Some(DIRECTORY)), None);
}

#[test]
fn recording_adds_a_new_prompt_after_the_stored_ones() {
    let mut file = b"a\0b\0".to_vec();
    record(&mut file, "c");
    assert_eq!(parse_history(&file).unwrap(), ["a", "b", "c"]);
    assert_eq!(record_addition(&vec!["a".to_owned()], "a"), None);
    assert!(is_recorded(&vec!["a".to_owned()], "a"));
}
