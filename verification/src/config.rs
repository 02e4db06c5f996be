//! Configuration model, its rules, and request settings.

use vstd::prelude::*;

use crate::keyed::{ascending, find_key, keys_of};
use crate::text::{
    chars_of, concat_str, contains_str, copy_string, position, str_eq, string_of, strs, trim_chars,
    trimmed,
};
use crate::urls::{completion_url, endpoint_of, UrlError, UrlFailure};

verus! {

/// Where a provider's API key comes from.
#[derive(Clone, Debug, PartialEq, Eq)]
pub enum ApiKeySource {
    /// The name of an environment variable.
    Environment(String),
    /// A program and its arguments; the key is what it prints.
    Command(Vec<String>),
}

/// A temperature, held as the bits of its IEEE 754 binary64 value.
#[derive(Clone, Copy, Debug, PartialEq, Eq)]
pub struct Temperature {
    pub bits: u64,
}

/// A binary64 value is finite unless all exponent bits are set.
pub open spec fn finite_bits(bits: u64) -> bool {
    (bits >> 52u64) & 0x7ffu64 != 0x7ffu64
}

impl Temperature {
    /// Whether the value is neither infinite nor NaN (as `f64::is_finite`).
    pub fn is_finite(&self) -> (r: bool)
        ensures
            r == finite_bits(self.bits),
    {
        (self.bits >> 52u64) & 0x7ffu64 != 0x7ffu64
    }
}

/// Per-request settings; each may be left to a broader level.
#[derive(Clone, Debug, Default, PartialEq, Eq)]
pub struct RequestSettings {
    pub max_tokens: Option<u64>,
    pub reasoning_effort: Option<String>,
    pub temperature: Option<Temperature>,
}

/// One inference provider.
#[derive(Clone, Debug, PartialEq, Eq)]
pub struct Provider {
    pub base_url: String,
    pub api_key: ApiKeySource,
    pub models: Vec<String>,
    pub max_tokens: Option<u64>,
    pub reasoning_effort: Option<String>,
    pub temperature: Option<Temperature>,
    /// Settings by model name, in ascending name order.
    pub model_settings: Vec<(String, RequestSettings)>,
}

/// Settings that apply unless a provider or model says otherwise.
#[derive(Clone, Debug, PartialEq, Eq)]
pub struct Defaults {
    pub provider: Option<String>,
    pub model: Option<String>,
    pub timeout_seconds: u64,
    pub launch_key: String,
    pub history_key: String,
    pub menu_key: String,
    pub prompt: String,
    pub max_tokens: u64,
    pub reasoning_effort: Option<String>,
    pub temperature: Temperature,
}

/// The whole configuration.
#[derive(Clone, Debug, PartialEq, Eq)]
pub struct Config {
    pub theme: Option<String>,
    pub defaults: Defaults,
    /// Providers by name, in ascending name order.
    pub providers: Vec<(String, Provider)>,
}

/// A launch, history or menu key: one printable ASCII character.
pub open spec fn is_key(s: Seq<char>) -> bool {
    s.len() == 1 && 0x21 <= (s[0] as u32) <= 0x7e
}

/// Whether `value` is one printable ASCII character.
pub fn is_valid_key(value: &str) -> (r: bool)
    ensures
        r == is_key(value@),
{
    let c = chars_of(value);
    c.len() == 1 && 0x21 <= (c[0] as u32) && (c[0] as u32) <= 0x7e
}

impl ApiKeySource {
    pub open spec fn valid(&self) -> bool {
        match self {
            ApiKeySource::Environment(name) => trimmed(name@).len() > 0,
            ApiKeySource::Command(args) => args@.len() > 0 && trimmed(args@[0]@).len() > 0,
        }
    }

    /// Whether the source names a variable, or a program, that is not blank.
    pub fn is_valid(&self) -> (r: bool)
        ensures
            r == self.valid(),
    {
        match self {
            ApiKeySource::Environment(name) => {
                let c = chars_of(name.as_str());
                trim_chars(&c).len() > 0
            },
            ApiKeySource::Command(args) => {
                if args.len() == 0 {
                    false
                } else {
                    let c = chars_of(args[0].as_str());
                    trim_chars(&c).len() > 0
                }
            },
        }
    }

    /// The variable name, or the command words joined by spaces.
    pub fn description(&self) -> (r: String)
        ensures
            r@ == source_text(*self),
    {
        match self {
            ApiKeySource::Environment(name) => name.clone(),
            ApiKeySource::Command(args) => join_with_spaces(args),
        }
    }
}

/// How a key source is described: the variable name, or the command words
/// joined by spaces.
pub open spec fn source_text(s: ApiKeySource) -> Seq<char> {
    match s {
        ApiKeySource::Environment(name) => name@,
        ApiKeySource::Command(args) => join_words(strs(args@)),
    }
}

/// The words joined by single spaces.
pub open spec fn join_words(words: Seq<Seq<char>>) -> Seq<char>
    decreases words.len(),
{
    if words.len() == 0 {
        Seq::empty()
    } else if words.len() == 1 {
        words[0]
    } else {
        join_words(words.drop_last()) + seq![' '] + words.last()
    }
}

/// The strings joined by single spaces (as `join(" ")`).
pub fn join_with_spaces(words: &Vec<String>) -> (r: String)
    ensures
        r@ == join_words(strs(words@)),
{
    let mut out = String::new();
    let mut i: usize = 0;
    while i < words.len()
        invariant
            i <= words@.len(),
            out@ == join_words(strs(words@).take(i as int)),
        decreases words@.len() - i,
    {
        proof {
            crate::session::lemma_strs(words@);
            assert(strs(words@).take(i + 1).drop_last() =~= strs(words@).take(i as int));
        }
        if i == 0 {
            out = words[0].clone();
            assert(strs(words@).take(1) =~= seq![words@[0]@]);
        } else {
            let mut with_space = out;
            crate::text::push_char(&mut with_space, ' ');
            out = concat_str(with_space.as_str(), words[i].as_str());
        }
        i = i + 1;
    }
    assert(strs(words@).take(words@.len() as int) =~= strs(words@));
    out
}

/// Where a setting was found, for messages.
pub open spec fn provider_location(name: Seq<char>) -> Seq<char> {
    "provider "@ + name
}

/// Where a model's setting was found, for messages.
pub open spec fn model_location(name: Seq<char>, model: Seq<char>) -> Seq<char> {
    "provider "@ + name + seq!['.'] + model
}

/// A rule that a configuration breaks.
pub enum ConfigProblem {
    NoProviders,
    InvalidKeys,
    NoModels(Seq<char>),
    InvalidBaseUrl(Seq<char>, UrlFailure),
    EmptyApiKey(Seq<char>),
    ZeroMaxTokens(Seq<char>),
    NonFiniteTemperature(Seq<char>),
    EmptyReasoningEffort(Seq<char>),
    UnconfiguredModelSettings(Seq<char>, Seq<char>),
    UnknownProvider(Seq<char>),
    UnknownModel(Seq<char>, Seq<char>),
}

/// A broken configuration rule, with what it concerns.
#[derive(Clone, Debug, PartialEq, Eq)]
pub enum ConfigError {
    NoProviders,
    InvalidKeys,
    NoModels(String),
    InvalidBaseUrl(String, UrlError),
    EmptyApiKey(String),
    ZeroMaxTokens(String),
    NonFiniteTemperature(String),
    EmptyReasoningEffort(String),
    UnconfiguredModelSettings(String, String),
    UnknownProvider(String),
    UnknownModel(String, String),
}

impl View for ConfigError {
    type V = ConfigProblem;

    open spec fn view(&self) -> ConfigProblem {
        match self {
            ConfigError::NoProviders => ConfigProblem::NoProviders,
            ConfigError::InvalidKeys => ConfigProblem::InvalidKeys,
            ConfigError::NoModels(p) => ConfigProblem::NoModels(p@),
            ConfigError::InvalidBaseUrl(p, e) => ConfigProblem::InvalidBaseUrl(p@, e@),
            ConfigError::EmptyApiKey(p) => ConfigProblem::EmptyApiKey(p@),
            ConfigError::ZeroMaxTokens(l) => ConfigProblem::ZeroMaxTokens(l@),
            ConfigError::NonFiniteTemperature(l) => ConfigProblem::NonFiniteTemperature(l@),
            ConfigError::EmptyReasoningEffort(l) => ConfigProblem::EmptyReasoningEffort(l@),
            ConfigError::UnconfiguredModelSettings(p, m) => ConfigProblem::UnconfiguredModelSettings(
                p@,
                m@,
            ),
            ConfigError::UnknownProvider(p) => ConfigProblem::UnknownProvider(p@),
            ConfigError::UnknownModel(m, p) => ConfigProblem::UnknownModel(m@, p@),
        }
    }
}

fn cat3(a: &str, b: &str, c: &str) -> (r: String)
    ensures
        r@ == a@ + b@ + c@,
{
    let ab = concat_str(a, b);
    concat_str(ab.as_str(), c)
}

impl ConfigError {
    /// The message for this error.
    pub open spec fn text(&self) -> Seq<char> {
        match self {
            ConfigError::NoProviders => "configure at least one provider"@,
            ConfigError::InvalidKeys => "defaults.launch_key, defaults.history_key, and defaults.menu_key must be distinct printable ASCII characters"@,
            ConfigError::NoModels(p) => "provider "@ + p@ + " has no models"@,
            ConfigError::InvalidBaseUrl(p, e) => "provider "@ + p@ + " has an invalid base_url: "@ + e.text(),
            ConfigError::EmptyApiKey(p) => "provider "@ + p@ + " has an empty api_key"@,
            ConfigError::ZeroMaxTokens(l) => l@ + ".max_tokens must be greater than zero"@,
            ConfigError::NonFiniteTemperature(l) => l@ + ".temperature must be finite"@,
            ConfigError::EmptyReasoningEffort(l) => l@ + ".reasoning_effort must not be empty"@,
            ConfigError::UnconfiguredModelSettings(p, m) => "provider "@ + p@
                + " has settings for an unconfigured model: "@ + m@,
            ConfigError::UnknownProvider(p) => "unknown provider: "@ + p@,
            ConfigError::UnknownModel(m, p) => "model "@ + m@ + " is not configured for provider "@ + p@,
        }
    }

    /// The message shown for this error.
    pub fn message(&self) -> (r: String)
        ensures
            r@ == self.text(),
    {
        match self {
            ConfigError::NoProviders => "configure at least one provider".to_owned(),
            ConfigError::InvalidKeys =>
                "defaults.launch_key, defaults.history_key, and defaults.menu_key must be distinct printable ASCII characters".to_owned(),
            ConfigError::NoModels(p) => cat3("provider ", p.as_str(), " has no models"),
            ConfigError::InvalidBaseUrl(p, e) => {
                let head = cat3("provider ", p.as_str(), " has an invalid base_url: ");
                concat_str(head.as_str(), e.message().as_str())
            },
            ConfigError::EmptyApiKey(p) => cat3("provider ", p.as_str(), " has an empty api_key"),
            ConfigError::ZeroMaxTokens(l) => concat_str(
                l.as_str(),
                ".max_tokens must be greater than zero",
            ),
            ConfigError::NonFiniteTemperature(l) => concat_str(
                l.as_str(),
                ".temperature must be finite",
            ),
            ConfigError::EmptyReasoningEffort(l) => concat_str(
                l.as_str(),
                ".reasoning_effort must not be empty",
            ),
            ConfigError::UnconfiguredModelSettings(p, m) => {
                let head = cat3("provider ", p.as_str(), " has settings for an unconfigured model: ");
                concat_str(head.as_str(), m.as_str())
            },
            ConfigError::UnknownProvider(p) => concat_str("unknown provider: ", p.as_str()),
            ConfigError::UnknownModel(m, p) => {
                let head = cat3("model ", m.as_str(), " is not configured for provider ");
                concat_str(head.as_str(), p.as_str())
            },
        }
    }
}

/// The first rule that a level of settings breaks, if any.
pub open spec fn settings_problem(
    location: Seq<char>,
    max_tokens: Option<u64>,
    temperature: Option<Temperature>,
    reasoning_effort: Option<String>,
) -> Option<ConfigProblem> {
    if max_tokens == Some(0u64) {
        Some(ConfigProblem::ZeroMaxTokens(location))
    } else if temperature matches Some(t) && !finite_bits(t.bits) {
        Some(ConfigProblem::NonFiniteTemperature(location))
    } else if reasoning_effort matches Some(e) && trimmed(e@).len() == 0 {
        Some(ConfigProblem::EmptyReasoningEffort(location))
    } else {
        None
    }
}

/// The first rule that a provider's model settings break, from entry `k` on.
pub open spec fn model_settings_problem(name: Seq<char>, p: Provider, k: int) -> Option<ConfigProblem>
    decreases p.model_settings@.len() - k,
{
    if k < 0 || k >= p.model_settings@.len() {
        None
    } else {
        let (model, s) = p.model_settings@[k];
        if !strs(p.models@).contains(model@) {
            Some(ConfigProblem::UnconfiguredModelSettings(name, model@))
        } else {
            match settings_problem(model_location(name, model@), s.max_tokens, s.temperature, s.reasoning_effort) {
                Some(e) => Some(e),
                None => model_settings_problem(name, p, k + 1),
            }
        }
    }
}

/// The first rule that a provider breaks, given why its base URL gives no
/// endpoint (`None` when it gives one).
pub open spec fn provider_problem(name: Seq<char>, p: Provider, url: Option<UrlFailure>) -> Option<ConfigProblem> {
    if p.models@.len() == 0 {
        Some(ConfigProblem::NoModels(name))
    } else if url is Some {
        Some(ConfigProblem::InvalidBaseUrl(name, url->0))
    } else if !p.api_key.valid() {
        Some(ConfigProblem::EmptyApiKey(name))
    } else {
        match settings_problem(provider_location(name), p.max_tokens, p.temperature, p.reasoning_effort) {
            Some(e) => Some(e),
            None => model_settings_problem(name, p, 0),
        }
    }
}

/// The first rule that providers `k..` break.
pub open spec fn providers_problem(c: Config, urls: Seq<Option<UrlFailure>>, k: int) -> Option<ConfigProblem>
    decreases c.providers@.len() - k,
{
    if k < 0 || k >= c.providers@.len() {
        None
    } else {
        match provider_problem(c.providers@[k].0@, c.providers@[k].1, urls[k]) {
            Some(e) => Some(e),
            None => providers_problem(c, urls, k + 1),
        }
    }
}

/// The three keys are printable ASCII characters, all different.
pub open spec fn keys_valid(d: Defaults) -> bool {
    &&& is_key(d.launch_key@)
    &&& is_key(d.history_key@)
    &&& is_key(d.menu_key@)
    &&& d.launch_key@ != d.history_key@
    &&& d.launch_key@ != d.menu_key@
    &&& d.history_key@ != d.menu_key@
}

/// The provider that the defaults select: the named one, else the first.
pub open spec fn default_provider_name(c: Config) -> Seq<char> {
    match c.defaults.provider {
        Some(p) => p@,
        None => c.providers@[0].0@,
    }
}

/// The first rule that the default selection breaks.
pub open spec fn default_selection_problem(c: Config) -> Option<ConfigProblem> {
    let name = default_provider_name(c);
    match position(keys_of(c.providers@), name) {
        None => Some(ConfigProblem::UnknownProvider(name)),
        Some(i) => match c.defaults.model {
            Some(m) => if strs(c.providers@[i].1.models@).contains(m@) {
                None
            } else {
                Some(ConfigProblem::UnknownModel(m@, name))
            },
            None => None,
        },
    }
}

/// Why each provider's base URL gives no endpoint (`None` when it gives one).
pub open spec fn url_failures(c: Config) -> Seq<Option<UrlFailure>> {
    Seq::new(
        c.providers@.len(),
        |i: int|
            match endpoint_of(c.providers@[i].1.base_url@) {
                Ok(_) => None,
                Err(f) => Some(f),
            },
    )
}

/// What a provider's base URL check reported, as the contracts speak of it.
pub open spec fn url_reports(urls: Seq<Option<UrlError>>) -> Seq<Option<UrlFailure>> {
    urls.map_values(
        |u: Option<UrlError>|
            match u {
                Some(e) => Some(e@),
                None => None,
            },
    )
}

/// The first rule that the configuration breaks, given for each provider
/// why its base URL gives no endpoint; `None` when it breaks none.
pub open spec fn config_problem(c: Config, urls: Seq<Option<UrlFailure>>) -> Option<ConfigProblem> {
    if c.providers@.len() == 0 {
        Some(ConfigProblem::NoProviders)
    } else if !keys_valid(c.defaults) {
        Some(ConfigProblem::InvalidKeys)
    } else {
        match providers_problem(c, urls, 0) {
            Some(e) => Some(e),
            None => match settings_problem(
                "defaults"@,
                Some(c.defaults.max_tokens),
                Some(c.defaults.temperature),
                c.defaults.reasoning_effort,
            ) {
                Some(e) => Some(e),
                None => default_selection_problem(c),
            },
        }
    }
}

/// The view of an optional error.
pub open spec fn problem_of(r: Result<(), ConfigError>) -> Option<ConfigProblem> {
    match r {
        Ok(()) => None,
        Err(e) => Some(e@),
    }
}

fn check_settings(
    location: &str,
    max_tokens: Option<u64>,
    temperature: Option<Temperature>,
    reasoning_effort: &Option<String>,
) -> (r: Result<(), ConfigError>)
    ensures
        problem_of(r) == settings_problem(location@, max_tokens, temperature, *reasoning_effort),
{
    if max_tokens == Some(0u64) {
        return Err(ConfigError::ZeroMaxTokens(copy_string(location)));
    }
    match temperature {
        Some(t) => {
            if !t.is_finite() {
                return Err(ConfigError::NonFiniteTemperature(copy_string(location)));
            }
        },
        None => {},
    }
    match reasoning_effort {
        Some(e) => {
            let c = chars_of(e.as_str());
            if trim_chars(&c).len() == 0 {
                return Err(ConfigError::EmptyReasoningEffort(copy_string(location)));
            }
        },
        None => {},
    }
    Ok(())
}

fn check_model_settings(name: &str, p: &Provider) -> (r: Result<(), ConfigError>)
    ensures
        problem_of(r) == model_settings_problem(name@, *p, 0),
{
    let n = p.model_settings.len();
    let mut k: usize = 0;
    while k < n
        invariant
            k <= n == p.model_settings@.len(),
            model_settings_problem(name@, *p, 0) == model_settings_problem(name@, *p, k as int),
        decreases n - k,
    {
        let model = &p.model_settings[k].0;
        let s = &p.model_settings[k].1;
        if !contains_str(&p.models, model.as_str()) {
            return Err(ConfigError::UnconfiguredModelSettings(name.to_owned(), model.clone()));
        }
        let head = concat_str("provider ", name);
        let mut dotted = head;
        crate::text::push_char(&mut dotted, '.');
        let location = concat_str(dotted.as_str(), model.as_str());
        assert(location@ =~= model_location(name@, model@));
        match check_settings(location.as_str(), s.max_tokens, s.temperature, &s.reasoning_effort) {
            Err(e) => {
                return Err(e);
            },
            Ok(()) => {},
        }
        k = k + 1;
    }
    Ok(())
}

fn check_provider(name: &str, p: &Provider, url: &Option<UrlError>) -> (r: Result<(), ConfigError>)
    ensures
        problem_of(r) == provider_problem(
            name@,
            *p,
            match url {
                Some(e) => Some(e@),
                None => None,
            },
        ),
{
    if p.models.len() == 0 {
        return Err(ConfigError::NoModels(name.to_owned()));
    }
    match url {
        Some(e) => {
            return Err(ConfigError::InvalidBaseUrl(name.to_owned(), e.copy()));
        },
        None => {},
    }
    if !p.api_key.is_valid() {
        return Err(ConfigError::EmptyApiKey(name.to_owned()));
    }
    let location = concat_str("provider ", name);
    match check_settings(location.as_str(), p.max_tokens, p.temperature, &p.reasoning_effort) {
        Err(e) => {
            return Err(e);
        },
        Ok(()) => {},
    }
    check_model_settings(name, p)
}

impl Config {
    /// Providers and model settings are each kept in ascending name order.
    pub open spec fn wf(&self) -> bool {
        &&& ascending(keys_of(self.providers@))
        &&& forall|i: int|
            0 <= i < self.providers@.len() ==> ascending(
                keys_of(#[trigger] self.providers@[i].1.model_settings@),
            )
    }

    /// Position of the provider named `name`.
    pub fn provider_index(&self, name: &str) -> (r: Option<usize>)
        ensures
            r matches Some(i) ==> position(keys_of(self.providers@), name@) == Some(i as int) && i
                < self.providers@.len(),
            r is None ==> position(keys_of(self.providers@), name@) is None,
    {
        find_key(&self.providers, name)
    }

    /// Checks every rule, given for each provider whether its base URL gives
    /// an endpoint (`None`) or why not.
    pub fn check(&self, urls: &Vec<Option<UrlError>>) -> (r: Result<(), ConfigError>)
        requires
            urls@.len() == self.providers@.len(),
        ensures
            problem_of(r) == config_problem(*self, url_reports(urls@)),
    {
        let ghost oks = url_reports(urls@);
        let n = self.providers.len();
        if n == 0 {
            return Err(ConfigError::NoProviders);
        }
        if !self.defaults.has_valid_keys() {
            return Err(ConfigError::InvalidKeys);
        }
        let mut k: usize = 0;
        while k < n
            invariant
                k <= n == self.providers@.len() == urls@.len(),
                oks == url_reports(urls@),
                n > 0,
                keys_valid(self.defaults),
                providers_problem(*self, oks, 0) == providers_problem(*self, oks, k as int),
            decreases n - k,
        {
            match check_provider(self.providers[k].0.as_str(), &self.providers[k].1, &urls[k]) {
                Err(e) => {
                    return Err(e);
                },
                Ok(()) => {},
            }
            k = k + 1;
        }
        match check_settings(
            "defaults",
            Some(self.defaults.max_tokens),
            Some(self.defaults.temperature),
            &self.defaults.reasoning_effort,
        ) {
            Err(e) => {
                return Err(e);
            },
            Ok(()) => {},
        }
        let name = match &self.defaults.provider {
            Some(p) => p.clone(),
            None => self.providers[0].0.clone(),
        };
        match self.provider_index(name.as_str()) {
            None => Err(ConfigError::UnknownProvider(name)),
            Some(i) => match &self.defaults.model {
                Some(m) => {
                    if contains_str(&self.providers[i].1.models, m.as_str()) {
                        Ok(())
                    } else {
                        Err(ConfigError::UnknownModel(m.clone(), name))
                    }
                },
                None => Ok(()),
            },
        }
    }

    /// Checks every rule for every command: at least one provider; distinct
    /// printable keys; per provider, models, an endpoint under its base URL,
    /// a key source and sound request settings; sound default settings; and
    /// a default provider and model that exist.
    pub fn validate(&self) -> (r: Result<(), ConfigError>)
        ensures
            problem_of(r) == config_problem(*self, url_failures(*self)),
    {
        let n = self.providers.len();
        let mut urls: Vec<Option<UrlError>> = Vec::new();
        let mut k: usize = 0;
        while k < n
            invariant
                k <= n == self.providers@.len(),
                urls@.len() == k,
                forall|i: int| 0 <= i < k ==> url_reports(urls@)[i] == #[trigger] url_failures(*self)[i],
            decreases n - k,
        {
            let outcome = match completion_url(self.providers[k].1.base_url.as_str()) {
                Ok(_) => None,
                Err(e) => Some(e),
            };
            urls.push(outcome);
            k = k + 1;
            assert(url_reports(urls@)[k - 1] == url_failures(*self)[k - 1]);
        }
        assert(url_reports(urls@) =~= url_failures(*self));
        self.check(&urls)
    }

    /// Request settings for `model` of `provider`: each from the model's
    /// settings, else the provider's, else the defaults.
    pub fn request_settings(&self, provider: &Provider, model: &str) -> (r: RequestSettings)
        ensures
            r == layered_settings(*self, *provider, model@),
    {
        let found = find_key(&provider.model_settings, model);
        let (max_tokens, reasoning_effort, temperature) = match found {
            Some(i) => {
                let s = &provider.model_settings[i].1;
                (s.max_tokens, s.reasoning_effort.clone(), s.temperature)
            },
            None => (None, None, None),
        };
        RequestSettings {
            max_tokens: match max_tokens {
                Some(m) => Some(m),
                None => match provider.max_tokens {
                    Some(m) => Some(m),
                    None => Some(self.defaults.max_tokens),
                },
            },
            reasoning_effort: match reasoning_effort {
                Some(e) => Some(e),
                None => match &provider.reasoning_effort {
                    Some(e) => Some(e.clone()),
                    None => self.defaults.reasoning_effort.clone(),
                },
            },
            temperature: match temperature {
                Some(t) => Some(t),
                None => match provider.temperature {
                    Some(t) => Some(t),
                    None => Some(self.defaults.temperature),
                },
            },
        }
    }
}

/// The first of `a`, `b`, `c` that is set.
pub open spec fn first_set<T>(a: Option<T>, b: Option<T>, c: Option<T>) -> Option<T> {
    match a {
        Some(x) => Some(x),
        None => match b {
            Some(x) => Some(x),
            None => c,
        },
    }
}

/// The settings of `model`: each from the model's entry, else the
/// provider's, else the defaults.
pub open spec fn layered_settings(c: Config, p: Provider, model: Seq<char>) -> RequestSettings {
    let m: Option<RequestSettings> = match position(keys_of(p.model_settings@), model) {
        Some(i) => Some(p.model_settings@[i].1),
        None => None,
    };
    RequestSettings {
        max_tokens: first_set(
            match m {
                Some(s) => s.max_tokens,
                None => None,
            },
            p.max_tokens,
            Some(c.defaults.max_tokens),
        ),
        reasoning_effort: first_set(
            match m {
                Some(s) => s.reasoning_effort,
                None => None,
            },
            p.reasoning_effort,
            c.defaults.reasoning_effort,
        ),
        temperature: first_set(
            match m {
                Some(s) => s.temperature,
                None => None,
            },
            p.temperature,
            Some(c.defaults.temperature),
        ),
    }
}

impl Defaults {
    /// The launch, history and menu keys are printable ASCII characters,
    /// all different.
    pub fn has_valid_keys(&self) -> (r: bool)
        ensures
            r == keys_valid(*self),
    {
        is_valid_key(self.launch_key.as_str()) && is_valid_key(self.history_key.as_str())
            && is_valid_key(self.menu_key.as_str()) && !str_eq(
            self.launch_key.as_str(),
            self.history_key.as_str(),
        ) && !str_eq(self.launch_key.as_str(), self.menu_key.as_str()) && !str_eq(
            self.history_key.as_str(),
            self.menu_key.as_str(),
        )
    }
}

proof fn lemma_providers_problem_none(c: Config, urls: Seq<Option<UrlFailure>>, k: int)
    requires
        0 <= k <= c.providers@.len(),
    ensures
        providers_problem(c, urls, k) is None <==> forall|j: int|
            k <= j < c.providers@.len() ==> #[trigger] provider_problem(
                c.providers@[j].0@,
                c.providers@[j].1,
                urls[j],
            ) is None,
    decreases c.providers@.len() - k,
{
    if k < c.providers@.len() {
        lemma_providers_problem_none(c, urls, k + 1);
    }
}

/// A configuration passes exactly when it has a provider, its keys are
/// sound, every provider keeps every provider rule (its base URL giving an
/// endpoint among them), the default settings are sound, and the default
/// provider and model exist.
pub proof fn law_config_rules(c: Config, urls: Seq<Option<UrlFailure>>)
    ensures
        config_problem(c, urls) is None <==> {
            &&& c.providers@.len() > 0
            &&& keys_valid(c.defaults)
            &&& forall|j: int|
                0 <= j < c.providers@.len() ==> #[trigger] provider_problem(
                    c.providers@[j].0@,
                    c.providers@[j].1,
                    urls[j],
                ) is None
            &&& settings_problem(
                "defaults"@,
                Some(c.defaults.max_tokens),
                Some(c.defaults.temperature),
                c.defaults.reasoning_effort,
            ) is None
            &&& default_selection_problem(c) is None
        },
{
    lemma_providers_problem_none(c, urls, 0);
}

/// Whether entry `i` of the model settings `entries` is for `model`.
pub open spec fn entry_named(entries: Seq<(String, RequestSettings)>, model: Seq<char>, i: int) -> bool {
    0 <= i < entries.len() && entries[i].0@ == model
}

proof fn lemma_model_entry(p: Provider, model: Seq<char>)
    ensures
        match position(keys_of(p.model_settings@), model) {
            Some(i) => entry_named(p.model_settings@, model, i) && forall|j: int|
                0 <= j < i ==> !entry_named(p.model_settings@, model, j),
            None => forall|j: int| !entry_named(p.model_settings@, model, j),
        },
{
    let keys = keys_of(p.model_settings@);
    crate::text::lemma_position(keys, model);
    match position(keys, model) {
        Some(i) => {
            assert(keys[i] == p.model_settings@[i].0@);
            assert forall|j: int| 0 <= j < i implies !entry_named(p.model_settings@, model, j) by {
                assert(keys[j] == p.model_settings@[j].0@);
            }
        },
        None => {
            assert forall|j: int| !entry_named(p.model_settings@, model, j) by {
                if 0 <= j < p.model_settings@.len() {
                    assert(keys[j] == p.model_settings@[j].0@);
                    assert(keys.contains(keys[j]));
                }
            }
        },
    }
}

/// Each request setting comes from the model's own entry when that sets
/// it, else from the provider when it sets it, else from the defaults:
/// provider and model settings override the defaults, and a model's entry
/// overrides its provider.
pub proof fn law_settings_layering(c: Config, p: Provider, model: Seq<char>)
    ensures
        ({
            let r = layered_settings(c, p, model);
            let ms = p.model_settings@;
            &&& (forall|i: int| #[trigger] entry_named(ms, model, i) ==> ms[i].1.max_tokens is None) ==> {
                &&& p.max_tokens is Some ==> r.max_tokens == p.max_tokens
                &&& p.max_tokens is None ==> r.max_tokens == Some(c.defaults.max_tokens)
            }
            &&& (forall|i: int| #[trigger] entry_named(ms, model, i) ==> ms[i].1.reasoning_effort is None) ==> {
                &&& p.reasoning_effort is Some ==> r.reasoning_effort == p.reasoning_effort
                &&& p.reasoning_effort is None ==> r.reasoning_effort == c.defaults.reasoning_effort
            }
            &&& (forall|i: int| #[trigger] entry_named(ms, model, i) ==> ms[i].1.temperature is None) ==> {
                &&& p.temperature is Some ==> r.temperature == p.temperature
                &&& p.temperature is None ==> r.temperature == Some(c.defaults.temperature)
            }
            &&& forall|i: int|
                #![trigger entry_named(ms, model, i)]
                entry_named(ms, model, i) && (forall|j: int| 0 <= j < i ==> !entry_named(ms, model, j))
                    ==> {
                    &&& ms[i].1.max_tokens is Some ==> r.max_tokens == ms[i].1.max_tokens
                    &&& ms[i].1.reasoning_effort is Some ==> r.reasoning_effort == ms[i].1.reasoning_effort
                    &&& ms[i].1.temperature is Some ==> r.temperature == ms[i].1.temperature
                }
        }),
{
    lemma_model_entry(p, model);
    let ms = p.model_settings@;
    match position(keys_of(ms), model) {
        Some(k) => {
            assert forall|i: int|
                #![trigger entry_named(ms, model, i)]
                entry_named(ms, model, i) && (forall|j: int| 0 <= j < i ==> !entry_named(ms, model, j))
                    implies i == k by {
                if i < k {
                    assert(!entry_named(ms, model, i));
                } else if i > k {
                    assert(!entry_named(ms, model, k));
                }
            }
        },
        None => {},
    }
}

} // verus!
