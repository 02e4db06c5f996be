use shell_ai::integration::{bash, fish, nushell, source, zsh, Shell};

#[test]
fn escapes_a_quote_for_the_readline_key_sequence() {
    assert!(bash::source("\"").contains("bind -x '\"\\\"\":_shell_ai_exec'"));
}

#[test]
fn escapes_a_quote_for_the_fish_key_sequence() {
    assert!(fish::source("\"").contains("set _shell_ai_launch_key '\"'"));
}

#[test]
fn emits_a_keybinding_record_that_preserves_quotes() {
    let bindings: serde_json::Value = serde_json::from_str(&nushell::source("\"")).unwrap();
    let binding = &bindings[0];

    assert_eq!(binding["keycode"], "char_\"");
    assert_eq!(
        binding["event"]["cmd"].as_str().unwrap(),
        "let buffer = commandline; if not ($buffer | is-empty) { commandline edit --insert \"\\\"\" } else { let shell_ai_bin = if \"SHELL_AI_BIN\" in $env { $env.SHELL_AI_BIN } else { \"shell-ai\" }; let result = (with-env { SHELL_AI_SHELL: \"nu\" } { do { ^$shell_ai_bin exec } } | complete); let command = $result.stdout | str trim --right; if $result.exit_code == 0 and not ($command | is-empty) { commandline edit --replace $command } }"
    );
}

#[test]
fn nushell_record_names_the_binding_and_its_modes() {
    let bindings: serde_json::Value = serde_json::from_str(&nushell::source("?")).unwrap();
    let binding = &bindings[0];
    assert_eq!(bindings.as_array().unwrap().len(), 1);
    assert_eq!(binding["name"], "shell_ai_exec");
    assert_eq!(binding["modifier"], "none");
    assert_eq!(binding["keycode"], "char_?");
    assert_eq!(binding["mode"][0], "emacs");
    assert_eq!(binding["mode"][1], "vi_insert");
    assert_eq!(binding["event"]["send"], "executehostcommand");
}

#[test]
fn nushell_record_is_compact_json_with_sorted_members() {
    let record = nushell::binding_record("?", "\"?\"");
    assert!(record.starts_with("[{\"event\":{\"cmd\":\"let buffer = commandline; if not ($buffer | is-empty) { commandline edit --insert \\\"?\\\" }"));
    assert!(record.ends_with(",\"send\":\"executehostcommand\"},\"keycode\":\"char_?\",\"mode\":[\"emacs\",\"vi_insert\"],\"modifier\":\"none\",\"name\":\"shell_ai_exec\"}]"));
}

#[test]
fn bash_binds_the_launch_key_in_single_quotes() {
    let script = bash::source("?");
    assert!(script.contains("_shell_ai_launch_key='?'\n"));
    assert!(script.contains("bind -x '\"?\":_shell_ai_exec'\n"));
    assert!(!script.contains("__SHELL_AI_"));
}

#[test]
fn bash_quoting_closes_and_reopens_around_a_single_quote() {
    assert_eq!(bash::single_quote("it's"), "'it'\"'\"'s'");
    assert!(bash::source("\\").contains("bind -x '\"\\\\\":_shell_ai_exec'"));
}

#[test]
fn zsh_binds_the_launch_key_in_both_keymaps() {
    let script = zsh::source("'");
    assert!(script.contains("_shell_ai_launch_key=''\"'\"''\n"));
    assert!(script.contains("bindkey -M main \"$_shell_ai_launch_key\" _shell_ai_exec"));
    assert!(script.contains("bindkey -M viins \"$_shell_ai_launch_key\" _shell_ai_exec"));
}

#[test]
fn fish_escapes_backslashes_and_quotes() {
    assert_eq!(fish::single_quote("a\\b'c"), "'a\\\\b\\'c'");
}

#[test]
fn dispatches_to_each_shell() {
    assert_eq!(source(Shell::Bash, "?"), bash::source("?"));
    assert_eq!(source(Shell::Zsh, "?"), zsh::source("?"));
    assert_eq!(source(Shell::Fish, "?"), fish::source("?"));
    assert_eq!(source(Shell::Nu, "?"), nushell::source("?"));
}

#[test]
fn nushell_record_is_what_serde_json_writes_for_it() {
    for key in ["?", "\"", "\\", "é"] {
        let parsed: serde_json::Value = serde_json::from_str(&nushell::source(key)).unwrap();
        let rewritten = serde_json::to_string(&parsed).unwrap();
        assert_eq!(rewritten, nushell::source(key));
        let mut event = serde_json::Map::new();
        event.insert("send".to_owned(), serde_json::Value::from("executehostcommand"));
        event.insert("cmd".to_owned(), parsed[0]["event"]["cmd"].clone());
        let mut binding = serde_json::Map::new();
        binding.insert("name".to_owned(), serde_json::Value::from("shell_ai_exec"));
        binding.insert("modifier".to_owned(), serde_json::Value::from("none"));
        binding.insert("keycode".to_owned(), serde_json::Value::from(format!("char_{key}")));
        binding.insert(
            "mode".to_owned(),
            serde_json::Value::Array(vec![serde_json::Value::from("emacs"), serde_json::Value::from("vi_insert")]),
        );
        binding.insert("event".to_owned(), serde_json::Value::Object(event));
        let expected = serde_json::Value::Array(vec![serde_json::Value::Object(binding)]);
        assert_eq!(serde_json::to_string(&expected).unwrap(), nushell::source(key));
    }
}
