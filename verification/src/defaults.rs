//! The built-in configuration, used when no configuration file exists, and
//! the values that an omitted setting takes.

use vstd::prelude::*;

use crate::config::{
    config_problem, url_failures, ApiKeySource, Config, Defaults, Provider, RequestSettings, Temperature,
};
use crate::session::opt_str;
use crate::urls::endpoint_of;
use crate::text::strs;

verus! {

/// Seconds a request may take unless configured otherwise.
pub const TIMEOUT_SECONDS: u64 = 30;

/// Tokens a reply may use unless configured otherwise.
pub const MAX_TOKENS: u64 = 512;

/// The bits of the binary64 value 0.1, the temperature unless configured
/// otherwise.
pub const TEMPERATURE_BITS: u64 = 0x3FB999999999999Au64;

/// Seconds a request may take when the setting is omitted.
pub fn default_timeout() -> (r: u64)
    ensures
        r == TIMEOUT_SECONDS,
{
    TIMEOUT_SECONDS
}

/// Tokens a reply may use when the setting is omitted.
pub fn default_max_tokens() -> (r: u64)
    ensures
        r == MAX_TOKENS,
{
    MAX_TOKENS
}

/// The temperature when the setting is omitted (0.1).
pub fn default_temperature() -> (r: Temperature)
    ensures
        r.bits == TEMPERATURE_BITS,
{
    Temperature { bits: TEMPERATURE_BITS }
}

/// The key that opens a session when the setting is omitted.
pub fn default_launch_key() -> (r: String)
    ensures
        r@ == "?"@,
{
    "?".to_owned()
}

/// The key that opens the history picker when the setting is omitted.
pub fn default_history_key() -> (r: String)
    ensures
        r@ == "!"@,
{
    "!".to_owned()
}

/// The key that opens the menu when the setting is omitted.
pub fn default_menu_key() -> (r: String)
    ensures
        r@ == "/"@,
{
    "/".to_owned()
}

/// The session prompt when the setting is omitted.
pub fn default_prompt() -> (r: String)
    ensures
        r@ == "AI› "@,
{
    "AI› ".to_owned()
}

/// The defaults that a `[defaults]` table with no entries gives.
pub fn standard_defaults() -> (r: Defaults)
    ensures
        r.provider is None,
        r.model is None,
        r.timeout_seconds == TIMEOUT_SECONDS,
        r.launch_key@ == "?"@,
        r.history_key@ == "!"@,
        r.menu_key@ == "/"@,
        r.prompt@ == "AI› "@,
        r.max_tokens == MAX_TOKENS,
        r.reasoning_effort is None,
        r.temperature.bits == TEMPERATURE_BITS,
{
    Defaults {
        provider: None,
        model: None,
        timeout_seconds: default_timeout(),
        launch_key: default_launch_key(),
        history_key: default_history_key(),
        menu_key: default_menu_key(),
        prompt: default_prompt(),
        max_tokens: default_max_tokens(),
        reasoning_effort: None,
        temperature: default_temperature(),
    }
}

/// The built-in configuration: one provider, `cerebras`, whose key comes
/// from `CEREBRAS_API_KEY`, offering `gemma-4-31b` (the default) and
/// `gpt-oss-120b`, with low reasoning effort.
pub open spec fn is_built_in(c: Config) -> bool {
    &&& c.theme is None
    &&& opt_str(c.defaults.provider) == Some("cerebras"@)
    &&& opt_str(c.defaults.model) == Some("gemma-4-31b"@)
    &&& c.defaults.timeout_seconds == TIMEOUT_SECONDS
    &&& c.defaults.launch_key@ == "?"@
    &&& c.defaults.history_key@ == "!"@
    &&& c.defaults.menu_key@ == "/"@
    &&& c.defaults.prompt@ == "AI› "@
    &&& c.defaults.max_tokens == MAX_TOKENS
    &&& opt_str(c.defaults.reasoning_effort) == Some("low"@)
    &&& c.defaults.temperature.bits == TEMPERATURE_BITS
    &&& c.providers@.len() == 1
    &&& c.providers@[0].0@ == "cerebras"@
    &&& c.providers@[0].1.base_url@ == "https://api.cerebras.ai/v1"@
    &&& c.providers@[0].1.api_key matches ApiKeySource::Environment(n) && n@
        == "CEREBRAS_API_KEY"@
    &&& strs(c.providers@[0].1.models@) == seq!["gemma-4-31b"@, "gpt-oss-120b"@]
    &&& c.providers@[0].1.max_tokens is None
    &&& c.providers@[0].1.reasoning_effort is None
    &&& c.providers@[0].1.temperature is None
    &&& c.providers@[0].1.model_settings@.len() == 0
}

/// The complete configuration that works with only an API key in the
/// environment; a configuration file replaces it.
pub fn config() -> (r: Config)
    ensures
        is_built_in(r),
        r.wf(),
{
    let mut models: Vec<String> = Vec::new();
    models.push("gemma-4-31b".to_owned());
    models.push("gpt-oss-120b".to_owned());
    let settings: Vec<(String, RequestSettings)> = Vec::new();
    let provider = Provider {
        base_url: "https://api.cerebras.ai/v1".to_owned(),
        api_key: ApiKeySource::Environment("CEREBRAS_API_KEY".to_owned()),
        models,
        max_tokens: None,
        reasoning_effort: None,
        temperature: None,
        model_settings: settings,
    };
    let mut providers: Vec<(String, Provider)> = Vec::new();
    providers.push(("cerebras".to_owned(), provider));
    let r = Config {
        theme: None,
        defaults: Defaults {
            provider: Some("cerebras".to_owned()),
            model: Some("gemma-4-31b".to_owned()),
            timeout_seconds: TIMEOUT_SECONDS,
            launch_key: default_launch_key(),
            history_key: default_history_key(),
            menu_key: default_menu_key(),
            prompt: default_prompt(),
            max_tokens: MAX_TOKENS,
            reasoning_effort: Some("low".to_owned()),
            temperature: default_temperature(),
        },
        providers,
    };
    assert(strs(r.providers@[0].1.models@) =~= seq!["gemma-4-31b"@, "gpt-oss-120b"@]);
    assert(crate::keyed::keys_of(r.providers@) =~= seq!["cerebras"@]);
    r
}

/// The built-in configuration breaks no rule, provided its base URL gives
/// an endpoint: then it passes validation.
pub proof fn law_built_in_config_is_valid(c: Config)
    requires
        is_built_in(c),
    ensures
        config_problem(c, seq![None]) is None,
        endpoint_of(c.providers@[0].1.base_url@) is Ok ==> config_problem(c, url_failures(c)) is None,
{
    if endpoint_of(c.providers@[0].1.base_url@) is Ok {
        assert(url_failures(c) =~= seq![None]);
    }
    reveal_strlit("?");
    reveal_strlit("!");
    reveal_strlit("/");
    reveal_strlit("low");
    reveal_strlit("CEREBRAS_API_KEY");
    reveal_strlit("cerebras");
    reveal_strlit("gemma-4-31b");
    reveal_strlit("gpt-oss-120b");
    let d = c.defaults;
    assert(crate::config::keys_valid(d));
    assert((0x3FB999999999999Au64 >> 52u64) & 0x7ffu64 != 0x7ffu64) by (bit_vector);
    let p = c.providers@[0].1;
    assert(crate::text::trimmed("low"@) == "low"@) by {
        crate::text::lemma_trimmed_unchanged("low"@);
    }
    assert(crate::text::trimmed("CEREBRAS_API_KEY"@) == "CEREBRAS_API_KEY"@) by {
        crate::text::lemma_trimmed_unchanged("CEREBRAS_API_KEY"@);
    }
    assert(p.api_key.valid());
    crate::session::lemma_strs(p.models@);
    assert(p.models@.len() == 2);
    assert(crate::config::model_settings_problem("cerebras"@, p, 0) is None);
    assert(crate::config::provider_problem("cerebras"@, p, None) is None);
    assert(crate::config::providers_problem(c, seq![None], 1) is None);
    assert(crate::config::providers_problem(c, seq![None], 0) is None);
    let keys = crate::keyed::keys_of(c.providers@);
    assert(keys =~= seq!["cerebras"@]);
    crate::text::lemma_first_str_at(keys, "cerebras"@, 0);
    assert(strs(p.models@)[0] == "gemma-4-31b"@);
    assert(strs(p.models@).contains("gemma-4-31b"@));
}

} // verus!
