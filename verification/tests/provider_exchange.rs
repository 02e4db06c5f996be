use shell_ai::command::{normalize_command, CommandError};
use shell_ai::config::{ApiKeySource, Config, Defaults, Provider, RequestSettings, Temperature};
use shell_ai::credentials::{check_key_command, command_key, environment_key, CommandOutcome, KeyError};
use shell_ai::defaults::{default_history_key, default_launch_key, default_menu_key, default_prompt};
use shell_ai::json::{Json, JsonNumber};
use shell_ai::provider::{
    completion_payload, error_detail, interpret_reply, response_diagnostics, system_prompt,
    ProviderError, SYSTEM_PROMPT,
};
use shell_ai::report::{error_bucket, session_error, shell_from_environment, ErrorBucket};
use shell_ai::request::{prepare_request, RequestError};
use shell_ai::selection::{resolve, Selection};
use shell_ai::editor::{editor_command, EditorError};
use shell_ai::urls::{completion_url, UrlError};

fn text(s: &str) -> Json {
    Json::Text(s.to_owned())
}

fn object(members: Vec<(&str, Json)>) -> Json {
    Json::Object(members.into_iter().map(|(k, v)| (k.to_owned(), v)).collect())
}

fn test_config() -> Config {
    Config {
        theme: None,
        defaults: Defaults {
            provider: Some("cerebras".to_owned()),
            model: Some("gemma".to_owned()),
            timeout_seconds: 30,
            launch_key: default_launch_key(),
            history_key: default_history_key(),
            menu_key: default_menu_key(),
            prompt: default_prompt(),
            max_tokens: 256,
            reasoning_effort: None,
            temperature: Temperature { bits: 0.1f64.to_bits() },
        },
        providers: vec![(
            "cerebras".to_owned(),
            Provider {
                base_url: "https://example.test/v1".to_owned(),
                api_key: ApiKeySource::Environment("CEREBRAS_API_KEY".to_owned()),
                models: vec!["gemma".to_owned(), "llama".to_owned()],
                max_tokens: None,
                reasoning_effort: None,
                temperature: None,
                model_settings: Vec::new(),
            },
        )],
    }
}

fn text_of<'a>(j: Option<&'a Json>) -> Option<&'a str> {
    j.and_then(|v| v.as_text())
}

#[test]
fn command_api_key_returns_its_standard_output_without_the_trailing_newline() {
    let arguments = vec!["printf".to_owned(), "command-key\\n".to_owned()];
    assert!(check_key_command("test", &arguments).is_ok());
    let outcome = CommandOutcome::Finished {
        success: true,
        status: "exit status: 0".to_owned(),
        stdout: b"command-key\n".to_vec(),
    };
    assert_eq!(command_key("test", outcome).unwrap(), "command-key");
}

#[test]
fn key_command_output_loses_only_its_line_ends() {
    let outcome = CommandOutcome::Finished {
        success: true,
        status: "exit status: 0".to_owned(),
        stdout: b" key \r\n\n".to_vec(),
    };
    assert_eq!(command_key("p", outcome).unwrap(), " key ");
}

#[test]
fn key_command_failures_are_reported_for_the_provider() {
    let failed = CommandOutcome::Finished {
        success: false,
        status: "exit status: 1".to_owned(),
        stdout: Vec::new(),
    };
    let error = command_key("openai", failed).unwrap_err();
    assert_eq!(error.message(), "api_key command for provider openai exited with exit status: 1");
    assert_eq!(error_bucket(&error.message()), ErrorBucket::ApiKey);

    let empty = CommandOutcome::Finished { success: true, status: "exit status: 0".to_owned(), stdout: b"\n".to_vec() };
    assert_eq!(command_key("p", empty).unwrap_err(), KeyError::EmptyKey { provider: "p".to_owned() });

    let binary = CommandOutcome::Finished { success: true, status: "exit status: 0".to_owned(), stdout: vec![0xff, 0xfe] };
    assert!(matches!(command_key("p", binary), Err(KeyError::NotText { .. })));

    let missing = CommandOutcome::NotStarted("No such file or directory".to_owned());
    assert_eq!(
        command_key("p", missing).unwrap_err().message(),
        "run api_key command for provider p: No such file or directory"
    );
}

#[test]
fn key_command_must_name_a_program() {
    assert_eq!(
        check_key_command("p", &Vec::new()).unwrap_err().message(),
        "api_key command is empty for provider p"
    );
    assert!(check_key_command("p", &vec!["  ".to_owned()]).is_err());
}

#[test]
fn environment_key_must_be_set_and_not_empty() {
    assert_eq!(environment_key("p", "KEY", Ok("secret".to_owned())).unwrap(), "secret");
    assert_eq!(
        environment_key("p", "KEY", Ok(String::new())).unwrap_err().message(),
        "environment variable KEY is empty for provider p"
    );
    assert_eq!(
        environment_key("p", "KEY", Err("environment variable not found".to_owned())).unwrap_err().message(),
        "read environment variable KEY for provider p: environment variable not found"
    );
}

#[test]
fn detects_the_shell_from_the_integration() {
    assert_eq!(shell_from_environment("zsh").unwrap(), "zsh");
}

#[test]
fn rejects_an_empty_shell_from_the_integration() {
    assert!(shell_from_environment("").is_err());
}

#[test]
fn shell_name_keeps_only_name_characters() {
    assert_eq!(shell_from_environment("/bin/zsh -l").unwrap(), "binzsh-l");
    assert_eq!(shell_from_environment("fish_3.7").unwrap(), "fish_3.7");
    assert_eq!(shell_from_environment("$(x)").unwrap(), "x");
    assert_eq!(shell_from_environment("!!").unwrap_err().message(), "SHELL_AI_SHELL must specify a shell");
}

#[test]
fn groups_request_failures_into_ui_error_buckets() {
    assert_eq!(
        error_bucket("provider returned 404 Not Found: Model zai-glm-4.7 is archived"),
        ErrorBucket::ModelUnavailable
    );
    assert_eq!(
        error_bucket("model zai-glm-4.7 is not configured for cerebras"),
        ErrorBucket::Configuration
    );
    assert_eq!(
        error_bucket("provider returned 429 Too Many Requests"),
        ErrorBucket::RateLimited
    );
    assert_eq!(
        error_bucket("api_key command for provider openai exited with exit status: 1"),
        ErrorBucket::ApiKey
    );
}

#[test]
fn each_bucket_has_its_exit_code_and_session_message() {
    assert_eq!(ErrorBucket::ModelUnavailable.exit_code(), 10);
    assert_eq!(ErrorBucket::RateLimited.exit_code(), 11);
    assert_eq!(ErrorBucket::ApiKey.exit_code(), 12);
    assert_eq!(ErrorBucket::Configuration.exit_code(), 13);
    assert_eq!(ErrorBucket::RequestFailed.exit_code(), 14);
    assert_eq!(error_bucket("connection reset"), ErrorBucket::RequestFailed);
    assert_eq!(error_bucket("HTTP 401 Unauthorized"), ErrorBucket::ApiKey);
    assert_eq!(session_error("provider returned 429 Too Many Requests"), "provider is busy; try again soon");
    assert_eq!(session_error("unknown provider: x"), "configuration problem; run shell-ai doctor");
    assert_eq!(session_error("boom"), "request failed; check the log");
    assert_eq!(session_error("Forbidden"), "API key problem; check your provider setup");
    assert_eq!(session_error("the model is unavailable"), "model unavailable; select another model");
}

#[test]
fn strips_fences_and_lines() {
    assert_eq!(normalize_command("```sh\nls -la\n```").unwrap(), "ls -la");
}

#[test]
fn rejects_controls() {
    assert!(normalize_command("echo ok\u{1b}").is_err());
}

#[test]
fn joins_multiline_response() {
    assert_eq!(
        normalize_command("git status\n--short").unwrap(),
        "git status --short"
    );
}

#[test]
fn refuses_a_reply_without_a_command() {
    assert_eq!(normalize_command("``` \n ```"), Err(CommandError::Empty));
    assert_eq!(CommandError::Empty.message(), "provider returned no command");
}

#[test]
fn completion_payload_uses_the_selected_model() {
    let config = test_config();
    let state = Selection {
        provider: Some("cerebras".to_owned()),
        model: Some("llama".to_owned()),
    };
    let (_, model, provider) = resolve(&config, &state).unwrap();

    let settings = config.request_settings(provider, &model);
    let payload = completion_payload(&model, &settings, "bash", "list files");

    assert_eq!(text_of(payload.get("model")), Some("llama"));
    assert!(matches!(payload.get("max_tokens"), Some(Json::Number(JsonNumber::Unsigned(256)))));
    assert!(payload.get("max_completion_tokens").is_none());
}

#[test]
fn completion_payload_includes_configured_request_settings() {
    let payload = completion_payload(
        "test-model",
        &RequestSettings {
            max_tokens: Some(1024),
            reasoning_effort: Some("medium".to_owned()),
            temperature: Some(Temperature { bits: 0.2f64.to_bits() }),
        },
        "fish",
        "list files",
    );

    assert!(matches!(payload.get("max_tokens"), Some(Json::Number(JsonNumber::Unsigned(1024)))));
    assert_eq!(text_of(payload.get("reasoning_effort")), Some("medium"));
    match payload.get("temperature") {
        Some(Json::Number(JsonNumber::Float(bits))) => assert_eq!(f64::from_bits(*bits), 0.2),
        other => panic!("unexpected temperature {other:?}"),
    }
    let messages = payload.get("messages").unwrap();
    assert_eq!(
        text_of(messages.at(0).and_then(|m| m.get("content"))),
        Some(format!("{SYSTEM_PROMPT} Generate syntax that is compatible with fish.").as_str())
    );
    assert_eq!(text_of(messages.at(0).and_then(|m| m.get("role"))), Some("system"));
    assert_eq!(text_of(messages.at(1).and_then(|m| m.get("role"))), Some("user"));
    assert_eq!(text_of(messages.at(1).and_then(|m| m.get("content"))), Some("list files"));
    assert!(messages.at(2).is_none());
}

#[test]
fn completion_payload_leaves_out_unset_settings() {
    let payload = completion_payload("m", &RequestSettings::default(), "bash", "r");
    match &payload {
        Json::Object(members) => {
            let keys: Vec<&str> = members.iter().map(|(k, _)| k.as_str()).collect();
            assert_eq!(keys, ["model", "messages"]);
        }
        other => panic!("not an object: {other:?}"),
    }
}

#[test]
fn system_prompt_names_the_shell() {
    assert_eq!(
        system_prompt("nu"),
        format!("{SYSTEM_PROMPT} Generate syntax that is compatible with nu.")
    );
}

#[test]
fn reads_openai_and_top_level_provider_error_messages() {
    assert_eq!(
        error_detail(&object(vec![("error", object(vec![("message", text("nested error"))]))])),
        "nested error"
    );
    assert_eq!(
        error_detail(&object(vec![("message", text("top-level error"))])),
        "top-level error"
    );
}

#[test]
fn error_detail_falls_back_to_a_generic_message() {
    assert_eq!(error_detail(&Json::Null), "unknown provider error");
    assert_eq!(
        error_detail(&object(vec![
            ("error", object(vec![("message", Json::Bool(true))])),
            ("message", text("top"))
        ])),
        "unknown provider error"
    );
}

#[test]
fn response_diagnostics_excludes_provider_text() {
    let body = object(vec![(
        "choices",
        Json::Array(vec![object(vec![
            ("finish_reason", text("length")),
            (
                "message",
                object(vec![
                    ("content", Json::Null),
                    ("reasoning", text("private reasoning")),
                    ("refusal", text("private refusal")),
                ]),
            ),
        ])]),
    )]);

    assert_eq!(
        response_diagnostics(&body),
        "choice_count=1 message=object content=null finish_reason=length refusal=true tool_calls=false reasoning=true"
    );
}

#[test]
fn response_diagnostics_of_an_empty_reply() {
    assert_eq!(
        response_diagnostics(&object(vec![])),
        "choice_count=0 message=missing content=missing finish_reason=missing refusal=false tool_calls=false reasoning=false"
    );
}

#[test]
fn interprets_provider_replies() {
    let ok = object(vec![(
        "choices",
        Json::Array(vec![object(vec![("message", object(vec![("content", text("ls -la"))]))])]),
    )]);
    assert_eq!(interpret_reply(true, "200 OK", Ok(ok)).unwrap(), "ls -la");

    let failed = object(vec![("error", object(vec![("message", text("provider failed"))]))]);
    let error = interpret_reply(false, "500 Internal Server Error", Ok(failed)).unwrap_err();
    assert!(error.message().contains("provider returned 500 Internal Server Error: provider failed"));

    let error = interpret_reply(true, "200 OK", Err("expected value at line 1 column 1".to_owned())).unwrap_err();
    assert!(error.message().contains("provider returned invalid JSON"));

    let empty_choice = object(vec![("choices", Json::Array(vec![object(vec![])]))]);
    let error = interpret_reply(true, "200 OK", Ok(empty_choice)).unwrap_err();
    assert!(error.message().contains("provider response contained no message content"));

    let unsafe_reply = object(vec![(
        "choices",
        Json::Array(vec![object(vec![("message", object(vec![("content", text("rm\u{7}"))]))])]),
    )]);
    assert_eq!(
        interpret_reply(true, "200 OK", Ok(unsafe_reply)),
        Err(ProviderError::Command(CommandError::ControlCharacters))
    );
    assert!(ProviderError::Unreachable("timed out".to_owned())
        .message()
        .contains("could not contact inference provider"));
}

#[test]
fn appends_the_completion_path_to_a_base_url() {
    assert_eq!(
        completion_url("https://example.test/v1").unwrap().as_str(),
        "https://example.test/v1/chat/completions"
    );
}

#[test]
fn completion_url_keeps_a_trailing_slash_and_rejects_relative_urls() {
    assert_eq!(
        completion_url("https://example.test/v1/").unwrap(),
        "https://example.test/v1/chat/completions"
    );
    assert!(completion_url("not a URL").unwrap_err().message().starts_with("invalid provider base_url: "));
    assert_eq!(completion_url("mailto:someone").unwrap_err().message(), "base_url cannot be a base");
}

#[test]
fn prepares_a_request_from_the_configuration() {
    let config = test_config();
    let words = vec!["list".to_owned(), "files".to_owned()];
    let prepared = prepare_request(&config, &Selection::default(), &words, Ok("zsh".to_owned())).unwrap();
    assert_eq!(prepared.provider_name, "cerebras");
    assert_eq!(prepared.provider, 0);
    assert_eq!(prepared.model, "gemma");
    assert_eq!(prepared.request, "list files");
    assert_eq!(prepared.shell, "zsh");
    assert_eq!(prepared.timeout_seconds, 30);
    assert_eq!(prepared.settings.max_tokens, Some(256));

    assert_eq!(
        prepare_request(&config, &Selection::default(), &Vec::new(), Ok("zsh".to_owned())).unwrap_err(),
        RequestError::NoRequest
    );
    assert_eq!(
        RequestError::NoRequest.message(),
        "provide a request, for example: shell-ai ask 'find large files'"
    );
    let unset = prepare_request(&config, &Selection::default(), &words, Err("environment variable not found".to_owned()))
        .unwrap_err();
    assert_eq!(
        unset.message(),
        "SHELL_AI_SHELL is not set; use a generated shell integration: environment variable not found"
    );
    assert!(matches!(
        prepare_request(&config, &Selection::default(), &words, Ok("".to_owned())),
        Err(RequestError::Shell(_))
    ));
    let unknown = Selection { provider: Some("nope".to_owned()), model: None };
    assert_eq!(
        prepare_request(&config, &unknown, &words, Ok("zsh".to_owned())).unwrap_err().message(),
        "unknown provider: nope"
    );
}

#[test]
fn editor_command_splits_like_a_shell_without_evaluating() {
    assert_eq!(editor_command("code --wait").unwrap(), vec!["code", "--wait"]);
    assert_eq!(editor_command("'/opt/my editor/bin' -w \"a b\"").unwrap(), vec!["/opt/my editor/bin", "-w", "a b"]);
    assert_eq!(editor_command("vi $HOME").unwrap(), vec!["vi", "$HOME"]);
    assert_eq!(editor_command(""), Err(EditorError::Empty));
    assert_eq!(editor_command("   "), Err(EditorError::Empty));
    let error = editor_command("'unclosed").unwrap_err();
    assert_eq!(error, EditorError::InvalidQuoting("missing closing quote".to_owned()));
    assert_eq!(error.message(), "EDITOR has invalid quoting: missing closing quote");
    assert_eq!(EditorError::Empty.message(), "EDITOR is empty");
}

#[test]
fn completion_url_reports_each_kind_of_failure() {
    assert!(matches!(completion_url("not a URL"), Err(UrlError::Invalid(_))));
    assert_eq!(completion_url("mailto:someone"), Err(UrlError::CannotBeABase));
    assert_eq!(completion_url("https://example.test").unwrap(), "https://example.test/chat/completions");
    assert_eq!(
        completion_url("https://example.test/api?v=1").unwrap(),
        "https://example.test/api/chat/completions"
    );
}

#[test]
fn the_failure_group_ignores_ascii_case() {
    for message in ["Invalid API key", "429 Too Many Requests", "model not found", "timeout"] {
        assert_eq!(error_bucket(message), error_bucket(&message.to_ascii_uppercase()));
        assert_eq!(error_bucket(message), error_bucket(&message.to_ascii_lowercase()));
    }
}

#[test]
fn a_command_is_one_trimmed_line_and_blank_replies_give_none() {
    for reply in ["  ls -la  ", "```bash\nls\n  -la\n```", "\n\n pwd \n"] {
        let command = normalize_command(reply).unwrap();
        assert_eq!(command.trim(), command);
        assert!(!command.contains('\n'));
    }
    assert_eq!(normalize_command(" \n\t "), Err(CommandError::Empty));
}
