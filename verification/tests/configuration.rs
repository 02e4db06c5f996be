use shell_ai::config::{is_valid_key, ApiKeySource, Config, ConfigError, Provider, RequestSettings, Temperature};
use shell_ai::defaults::{config as built_in, default_history_key, default_launch_key, default_menu_key, default_prompt, standard_defaults};
use shell_ai::doctor::{all_passed, binary_check, config_check, key_check, path_check, selection_checks, DoctorCheck};
use shell_ai::menu::{current_model, default_item, model_items, model_menu, model_options, provider_options, select_model, session_config};
use shell_ai::paths::{join_path, xdg_config_path, xdg_state_directory, Paths};
use shell_ai::selection::{parse, resolve, with_session_override, Selection, SelectionError};
use shell_ai::theme::Colors;

fn test_config() -> Config {
    let mut defaults = standard_defaults();
    defaults.provider = Some("cerebras".to_owned());
    defaults.model = Some("gemma".to_owned());
    defaults.max_tokens = 256;
    Config {
        theme: None,
        defaults,
        providers: vec![(
            "cerebras".to_owned(),
            Provider {
                base_url: "https://example.test/v1".to_owned(),
                api_key: ApiKeySource::Environment("CEREBRAS_API_KEY".to_owned()),
                models: vec!["gemma".to_owned(), "llama".to_owned()],
                max_tokens: None,
                reasoning_effort: None,
                temperature: None,
                model_settings: Vec::new(),
            },
        )],
    }
}

fn provider(base_url: &str, key: &str, models: &[&str]) -> Provider {
    Provider {
        base_url: base_url.to_owned(),
        api_key: ApiKeySource::Environment(key.to_owned()),
        models: models.iter().map(|m| (*m).to_owned()).collect(),
        max_tokens: None,
        reasoning_effort: None,
        temperature: None,
        model_settings: Vec::new(),
    }
}

fn valid_config() -> Config {
    let mut defaults = standard_defaults();
    defaults.provider = Some("test".to_owned());
    defaults.model = Some("model".to_owned());
    Config {
        theme: None,
        defaults,
        providers: vec![("test".to_owned(), provider("https://example.test/v1", "TEST_API_KEY", &["model"]))],
    }
}

#[test]
fn launch_key_must_be_one_printable_ascii_character() {
    assert!(is_valid_key("?"));
    assert!(!is_valid_key(""));
    assert!(!is_valid_key("ai"));
    assert!(!is_valid_key("é"));
    assert!(!is_valid_key("\n"));
}

#[test]
fn launch_history_and_menu_keys_must_be_distinct() {
    let mut defaults = standard_defaults();
    defaults.launch_key = "?".to_owned();
    defaults.history_key = "!".to_owned();
    defaults.menu_key = "?".to_owned();

    assert!(!defaults.has_valid_keys());
}

#[test]
fn defaults_to_question_mark_launch_key() {
    let defaults = standard_defaults();
    assert_eq!(defaults.launch_key, "?");
    assert_eq!(defaults.history_key, "!");
    assert_eq!(defaults.menu_key, "/");
    assert_eq!(defaults.prompt, "AI› ");
    assert_eq!(defaults.timeout_seconds, 30);
    assert_eq!(defaults.max_tokens, 512);
    assert_eq!(f64::from_bits(defaults.temperature.bits), 0.1);
    assert!(defaults.has_valid_keys());
}

#[test]
fn loads_built_in_defaults_when_configuration_file_is_absent() {
    let config = built_in();
    assert!(config.validate().is_ok());
    assert_eq!(config.defaults.provider.as_deref(), Some("cerebras"));
    assert_eq!(config.defaults.model.as_deref(), Some("gemma-4-31b"));
    assert_eq!(config.defaults.max_tokens, 512);
    assert!(config.provider_index("cerebras").is_some());
    assert_eq!(config.providers[0].1.models, ["gemma-4-31b", "gpt-oss-120b"]);
    assert_eq!(config.defaults.reasoning_effort.as_deref(), Some("low"));
}

#[test]
fn request_settings_layer_from_defaults_to_provider_to_model() {
    let mut defaults = standard_defaults();
    defaults.max_tokens = 1024;
    defaults.reasoning_effort = Some("low".to_owned());
    defaults.temperature = Temperature { bits: 0.1f64.to_bits() };
    let mut cerebras = provider("https://example.test/v1", "CEREBRAS_API_KEY", &["gemma", "gpt-oss"]);
    cerebras.max_tokens = Some(512);
    cerebras.temperature = Some(Temperature { bits: 0.2f64.to_bits() });
    cerebras.model_settings = vec![(
        "gpt-oss".to_owned(),
        RequestSettings { max_tokens: Some(2048), reasoning_effort: Some("medium".to_owned()), temperature: None },
    )];
    let config = Config { theme: None, defaults, providers: vec![("cerebras".to_owned(), cerebras)] };
    assert!(config.validate().is_ok());
    let provider = &config.providers[config.provider_index("cerebras").unwrap()].1;

    let gemma = config.request_settings(provider, "gemma");
    assert_eq!(gemma.max_tokens, Some(512));
    assert_eq!(gemma.reasoning_effort.as_deref(), Some("low"));
    assert_eq!(gemma.temperature.map(|t| f64::from_bits(t.bits)), Some(0.2));

    let gpt_oss = config.request_settings(provider, "gpt-oss");
    assert_eq!(gpt_oss.max_tokens, Some(2048));
    assert_eq!(gpt_oss.reasoning_effort.as_deref(), Some("medium"));
    assert_eq!(gpt_oss.temperature.map(|t| f64::from_bits(t.bits)), Some(0.2));
}

#[test]
fn request_settings_keep_existing_payload_defaults_when_not_configured() {
    let config = Config {
        theme: None,
        defaults: standard_defaults(),
        providers: vec![("test".to_owned(), provider("https://example.test/v1", "TEST_API_KEY", &["model"]))],
    };
    let settings = config.request_settings(&config.providers[0].1, "model");

    assert_eq!(settings.max_tokens, Some(512));
    assert_eq!(settings.temperature.map(|t| f64::from_bits(t.bits)), Some(0.1));
    assert_eq!(settings.reasoning_effort, None);
}

#[test]
fn configuration_validation_rejects_invalid_provider_and_default_forms() {
    let mut invalid = Vec::new();
    let mut c = valid_config();
    c.defaults.provider = Some("missing".to_owned());
    invalid.push(c);
    let mut c = valid_config();
    c.defaults.model = Some("missing".to_owned());
    invalid.push(c);
    let mut c = valid_config();
    c.providers[0].1.base_url = "not a URL".to_owned();
    invalid.push(c);
    let mut c = valid_config();
    c.providers[0].1.api_key = ApiKeySource::Environment(String::new());
    invalid.push(c);
    let mut c = valid_config();
    c.providers[0].1.models = Vec::new();
    invalid.push(c);
    let mut c = valid_config();
    c.defaults.history_key = "?".to_owned();
    invalid.push(c);
    let mut c = valid_config();
    c.defaults.menu_key = "?".to_owned();
    invalid.push(c);

    for config in &invalid {
        assert!(config.validate().is_err(), "{config:?}");
    }

    assert!(valid_config().validate().is_ok());
}

#[test]
fn validation_reports_each_rule_with_its_message() {
    let mut c = valid_config();
    c.providers.clear();
    assert_eq!(c.validate().unwrap_err().message(), "configure at least one provider");

    let mut c = valid_config();
    c.defaults.menu_key = "?".to_owned();
    assert_eq!(c.validate().unwrap_err(), ConfigError::InvalidKeys);

    let mut c = valid_config();
    c.providers[0].1.models.clear();
    assert_eq!(c.validate().unwrap_err().message(), "provider test has no models");

    let mut c = valid_config();
    c.providers[0].1.api_key = ApiKeySource::Command(vec![" ".to_owned()]);
    assert_eq!(c.validate().unwrap_err().message(), "provider test has an empty api_key");

    let mut c = valid_config();
    c.providers[0].1.max_tokens = Some(0);
    assert_eq!(c.validate().unwrap_err().message(), "provider test.max_tokens must be greater than zero");

    let mut c = valid_config();
    c.providers[0].1.temperature = Some(Temperature { bits: f64::NAN.to_bits() });
    assert_eq!(c.validate().unwrap_err().message(), "provider test.temperature must be finite");

    let mut c = valid_config();
    c.defaults.reasoning_effort = Some("  ".to_owned());
    assert_eq!(c.validate().unwrap_err().message(), "defaults.reasoning_effort must not be empty");

    let mut c = valid_config();
    c.providers[0].1.model_settings = vec![("other".to_owned(), RequestSettings::default())];
    assert_eq!(
        c.validate().unwrap_err().message(),
        "provider test has settings for an unconfigured model: other"
    );

    let mut c = valid_config();
    c.providers[0].1.model_settings =
        vec![("model".to_owned(), RequestSettings { max_tokens: Some(0), reasoning_effort: None, temperature: None })];
    assert_eq!(c.validate().unwrap_err().message(), "provider test.model.max_tokens must be greater than zero");

    let mut c = valid_config();
    c.defaults.model = Some("missing".to_owned());
    assert_eq!(c.validate().unwrap_err().message(), "model missing is not configured for provider test");

    let mut c = valid_config();
    c.providers[0].1.base_url = "not a URL".to_owned();
    assert!(c.validate().unwrap_err().message().starts_with("provider test has an invalid base_url: "));
}

#[test]
fn api_key_sources_describe_themselves() {
    let command = ApiKeySource::Command(vec!["fnox".to_owned(), "get".to_owned(), "CEREBRAS_API_KEY".to_owned()]);
    assert_eq!(command.description(), "fnox get CEREBRAS_API_KEY");
    assert!(command.is_valid());
    let environment = ApiKeySource::Environment("CEREBRAS_API_KEY".to_owned());
    assert_eq!(environment.description(), "CEREBRAS_API_KEY");
    assert!(!ApiKeySource::Command(Vec::new()).is_valid());
}

#[test]
fn selects_the_configured_default() {
    let config = test_config();
    let (provider, model, _) = resolve(&config, &Selection::default()).unwrap();

    assert_eq!(provider, "cerebras");
    assert_eq!(model, "gemma");
}

#[test]
fn session_model_overrides_the_persisted_model() {
    let config = test_config();
    let stored_state = Selection {
        provider: Some("cerebras".to_owned()),
        model: Some("gemma".to_owned()),
    };

    let state = with_session_override(&config, &stored_state, Some("cerebras/llama")).unwrap();
    let (_, model, _) = resolve(&config, &state).unwrap();

    assert_eq!(model, "llama");
}

#[test]
fn an_empty_session_override_keeps_the_stored_selection() {
    let config = test_config();
    let stored = Selection { provider: Some("cerebras".to_owned()), model: Some("llama".to_owned()) };
    assert_eq!(with_session_override(&config, &stored, Some("")).unwrap(), stored);
    assert_eq!(with_session_override(&config, &stored, None).unwrap(), stored);
    assert!(with_session_override(&config, &stored, Some("cerebras")).is_err());
}

#[test]
fn rejects_a_state_model_not_offered_by_its_provider() {
    let config = test_config();
    let state = Selection {
        provider: Some("cerebras".to_owned()),
        model: Some("unknown".to_owned()),
    };

    assert!(resolve(&config, &state).is_err());
}

#[test]
fn selection_errors_name_what_is_missing() {
    let config = test_config();
    assert_eq!(parse(&config, "cerebras").unwrap_err(), SelectionError::NotProviderModel);
    assert_eq!(parse(&config, "cerebras").unwrap_err().message(), "selection must be PROVIDER/MODEL");
    assert_eq!(parse(&config, "x/gemma").unwrap_err().message(), "unknown provider: x");
    assert_eq!(parse(&config, "cerebras/x").unwrap_err().message(), "model x is not configured for cerebras");
    assert_eq!(parse(&config, "cerebras/llama").unwrap(), ("cerebras".to_owned(), "llama".to_owned()));
    let state = Selection { provider: None, model: Some("x".to_owned()) };
    assert_eq!(
        resolve(&config, &state).unwrap_err().message(),
        "model x is not configured for provider cerebras"
    );
}

#[test]
fn lists_and_picks_models() {
    let mut config = test_config();
    config.providers.push(("other".to_owned(), provider("https://example.test/v1", "K", &["third"])));
    assert_eq!(model_items(&config), ["cerebras/gemma", "cerebras/llama", "other/third"]);
    assert_eq!(provider_options(&config), ["cerebras", "other"]);
    assert_eq!(model_options(&config, "other"), ["third"]);
    assert!(model_options(&config, "none").is_empty());
    assert_eq!(current_model(&config, &Selection::default()).unwrap(), "cerebras/gemma");
    let (items, start) = model_menu(&config, &Some("cerebras/llama".to_owned())).unwrap();
    assert_eq!(items.len(), 3);
    assert_eq!(start, 1);
    assert_eq!(default_item(&items, &Some("missing/model".to_owned())), 0);
    let picked = select_model(&config, &items[2]).unwrap();
    assert_eq!(picked, Selection { provider: Some("other".to_owned()), model: Some("third".to_owned()) });
}

#[test]
fn session_settings_come_from_the_configuration_and_theme() {
    let config = test_config();
    let colors = Colors { ai_prompt: Some(250), error: Some(203), menu_active: Some(110), ..Colors::default() };
    let session = session_config(&config, &colors);
    assert_eq!(session.prompt, "AI› ");
    assert_eq!(session.history_key, '!');
    assert_eq!(session.menu_key, '/');
    assert_eq!(session.prompt_color, Some(250));
    assert_eq!(session.error_color, Some(203));
    assert_eq!(session.menu_style.active, Some(110));
}

#[test]
fn uses_the_xdg_configuration_directory() {
    assert_eq!(
        xdg_config_path(Some("/tmp/config"), "/home/tester"),
        "/tmp/config/shell-ai/config.toml"
    );
    assert_eq!(
        xdg_config_path(None, "/home/tester"),
        "/home/tester/.config/shell-ai/config.toml"
    );
}

#[test]
fn uses_the_xdg_state_directory() {
    assert_eq!(
        xdg_state_directory(Some("/tmp/state"), "/home/tester"),
        "/tmp/state/shell-ai"
    );
    assert_eq!(
        xdg_state_directory(None, "/home/tester"),
        "/home/tester/.local/state/shell-ai"
    );
}

#[test]
fn joins_paths_as_the_platform_does() {
    assert_eq!(join_path("/a/", "b"), "/a/b");
    assert_eq!(join_path("", "b"), "b");
    assert_eq!(join_path("/a", "/b"), "/b");
}

#[test]
fn decides_every_path_from_the_environment() {
    let paths = Paths::new(Some("/home/t".to_owned()), None, None, Some("/s".to_owned())).unwrap();
    assert_eq!(paths.config, "/home/t/.config/shell-ai/config.toml");
    assert_eq!(paths.state, "/s/shell-ai/state.toml");
    assert_eq!(paths.log, "/s/shell-ai/shell-ai.log");
    assert_eq!(paths.prompt_history, "/s/shell-ai/prompts.history");
    let custom = Paths::new(Some("/home/t".to_owned()), Some("/etc/ai.toml".to_owned()), None, None).unwrap();
    assert_eq!(custom.config, "/etc/ai.toml");
    assert_eq!(custom.state, "/home/t/.local/state/shell-ai/state.toml");
    assert_eq!(Paths::new(None, None, None, None).unwrap_err().message(), "could not determine home directory");
}

#[test]
fn doctor_reports_each_check() {
    assert_eq!(binary_check("/bin/shell-ai").line(), "OK   binary        running /bin/shell-ai");
    assert_eq!(path_check(None, false, "/x").line(), "FAIL PATH          shell-ai is not on PATH");
    assert_eq!(
        path_check(Some("/usr/bin/shell-ai"), false, "/x").detail,
        "shell-ai resolves to /usr/bin/shell-ai, not /x"
    );
    assert!(path_check(Some("/x"), true, "/x").ok);
    assert_eq!(config_check("/c.toml", &Ok(2), true).detail, "2 provider(s) configured");
    assert_eq!(
        config_check("/c.toml", &Ok(1), false).detail,
        "not found at /c.toml; using 1 built-in provider(s)"
    );
    assert_eq!(config_check("/c.toml", &Err("bad".to_owned()), true).detail, "cannot load /c.toml: bad");
    let config = test_config();
    let (checks, provider) = selection_checks(&config, &Ok(Selection::default()));
    assert_eq!(checks[0].line(), "OK   active model  cerebras/gemma");
    assert_eq!(provider, Some(0));
    let (checks, provider) = selection_checks(&config, &Err("parse model state".to_owned()));
    assert_eq!(checks[0].line(), "FAIL state.toml    parse model state");
    assert_eq!(provider, None);
    let key = key_check(&config.providers[0].1.api_key, &Ok(()));
    assert_eq!(key.detail, "CEREBRAS_API_KEY returned a key");
    assert!(all_passed(&vec![key.clone()]));
    assert!(!all_passed(&vec![key, DoctorCheck::fail("x", "y".to_owned())]));
    assert_eq!(
        DoctorCheck::ok("a-very-long-check-name", "d".to_owned()).line(),
        "OK   a-very-long-check-name d"
    );
    let _ = (default_launch_key(), default_history_key(), default_menu_key(), default_prompt());
}
