//! The active provider and model.

use vstd::prelude::*;

use crate::config::{config_problem, keys_valid, Config, Provider};
use crate::keyed::keys_of;
use crate::session::opt_str;
use crate::text::{
    chars_of, concat_str, contains_str, position, split_once, split_once_chars, string_of, strs,
};

verus! {

/// A stored or session choice of provider and model; unset parts fall back
/// to the configured defaults.
#[derive(Clone, Debug, Default, PartialEq, Eq)]
pub struct Selection {
    pub provider: Option<String>,
    pub model: Option<String>,
}

/// Why a selection names no usable model.
pub enum SelectionProblem {
    NoProvider,
    UnknownProvider(Seq<char>),
    NoModels,
    NotConfigured(Seq<char>, Seq<char>),
    NotProviderModel,
    NotOffered(Seq<char>, Seq<char>),
}

/// Why a selection names no usable model.
#[derive(Clone, Debug, PartialEq, Eq)]
pub enum SelectionError {
    /// No provider is named and none is configured.
    NoProvider,
    /// The named provider is not configured.
    UnknownProvider(String),
    /// The provider offers no model to fall back to.
    NoModels,
    /// The model (first) is not among the provider's (second) models.
    NotConfigured(String, String),
    /// The text is not of the form `provider/model`.
    NotProviderModel,
    /// The model (first) is not offered by the provider (second).
    NotOffered(String, String),
}

impl View for SelectionError {
    type V = SelectionProblem;

    open spec fn view(&self) -> SelectionProblem {
        match self {
            SelectionError::NoProvider => SelectionProblem::NoProvider,
            SelectionError::UnknownProvider(p) => SelectionProblem::UnknownProvider(p@),
            SelectionError::NoModels => SelectionProblem::NoModels,
            SelectionError::NotConfigured(m, p) => SelectionProblem::NotConfigured(m@, p@),
            SelectionError::NotProviderModel => SelectionProblem::NotProviderModel,
            SelectionError::NotOffered(m, p) => SelectionProblem::NotOffered(m@, p@),
        }
    }
}

impl SelectionError {
    /// The message for this error.
    pub open spec fn text(&self) -> Seq<char> {
        match self {
            SelectionError::NoProvider => "no provider configured"@,
            SelectionError::UnknownProvider(p) => "unknown provider: "@ + p@,
            SelectionError::NoModels => "provider has no models"@,
            SelectionError::NotConfigured(m, p) => "model "@ + m@ + " is not configured for provider "@ + p@,
            SelectionError::NotProviderModel => "selection must be PROVIDER/MODEL"@,
            SelectionError::NotOffered(m, p) => "model "@ + m@ + " is not configured for "@ + p@,
        }
    }

    /// The message shown for this error.
    pub fn message(&self) -> (r: String)
        ensures
            r@ == self.text(),
    {
        match self {
            SelectionError::NoProvider => "no provider configured".to_owned(),
            SelectionError::UnknownProvider(p) => concat_str("unknown provider: ", p.as_str()),
            SelectionError::NoModels => "provider has no models".to_owned(),
            SelectionError::NotConfigured(m, p) => {
                let a = concat_str("model ", m.as_str());
                let b = concat_str(a.as_str(), " is not configured for provider ");
                concat_str(b.as_str(), p.as_str())
            },
            SelectionError::NotProviderModel => "selection must be PROVIDER/MODEL".to_owned(),
            SelectionError::NotOffered(m, p) => {
                let a = concat_str("model ", m.as_str());
                let b = concat_str(a.as_str(), " is not configured for ");
                concat_str(b.as_str(), p.as_str())
            },
        }
    }
}

/// The message for a selection problem; [`SelectionError::text`] of the
/// error that stands for it.
pub open spec fn problem_text(p: SelectionProblem) -> Seq<char> {
    match p {
        SelectionProblem::NoProvider => "no provider configured"@,
        SelectionProblem::UnknownProvider(p) => "unknown provider: "@ + p,
        SelectionProblem::NoModels => "provider has no models"@,
        SelectionProblem::NotConfigured(m, p) => "model "@ + m + " is not configured for provider "@ + p,
        SelectionProblem::NotProviderModel => "selection must be PROVIDER/MODEL"@,
        SelectionProblem::NotOffered(m, p) => "model "@ + m + " is not configured for "@ + p,
    }
}

/// The first of two optional names that is set.
pub open spec fn or_else(a: Option<Seq<char>>, b: Option<Seq<char>>) -> Option<Seq<char>> {
    match a {
        Some(x) => Some(x),
        None => b,
    }
}

/// The provider name, model name and provider position that `s` selects.
pub open spec fn resolved(c: Config, s: Selection) -> Result<(Seq<char>, Seq<char>, int), SelectionProblem> {
    let first = if c.providers@.len() > 0 {
        Some(c.providers@[0].0@)
    } else {
        None
    };
    match or_else(or_else(opt_str(s.provider), opt_str(c.defaults.provider)), first) {
        None => Err(SelectionProblem::NoProvider),
        Some(name) => match position(keys_of(c.providers@), name) {
            None => Err(SelectionProblem::UnknownProvider(name)),
            Some(i) => {
                let models = strs(c.providers@[i].1.models@);
                let fallback = if models.len() > 0 {
                    Some(models[0])
                } else {
                    None
                };
                match or_else(or_else(opt_str(s.model), opt_str(c.defaults.model)), fallback) {
                    None => Err(SelectionProblem::NoModels),
                    Some(model) => if models.contains(model) {
                        Ok((name, model, i))
                    } else {
                        Err(SelectionProblem::NotConfigured(model, name))
                    },
                }
            },
        },
    }
}

/// The provider and model that `value` (`provider/model`) names.
pub open spec fn parsed(c: Config, value: Seq<char>) -> Result<(Seq<char>, Seq<char>), SelectionProblem> {
    match split_once(value, '/') {
        None => Err(SelectionProblem::NotProviderModel),
        Some((p, m)) => match position(keys_of(c.providers@), p) {
            None => Err(SelectionProblem::UnknownProvider(p)),
            Some(i) => if strs(c.providers@[i].1.models@).contains(m) {
                Ok((p, m))
            } else {
                Err(SelectionProblem::NotOffered(m, p))
            },
        },
    }
}

fn first_of(a: &Option<String>, b: &Option<String>) -> (r: Option<String>)
    ensures
        opt_str(r) == or_else(opt_str(*a), opt_str(*b)),
{
    match a {
        Some(x) => Some(x.clone()),
        None => match b {
            Some(x) => Some(x.clone()),
            None => None,
        },
    }
}

/// Resolves the selection against the configuration: the provider is the
/// selected one, else the default, else the first; the model is the
/// selected one, else the default, else the provider's first, and must be
/// one of the provider's models.
pub fn resolve<'a>(config: &'a Config, selection: &Selection) -> (r: Result<
    (String, String, &'a Provider),
    SelectionError,
>)
    ensures
        match (r, resolved(*config, *selection)) {
            (Ok((p, m, prov)), Ok((p2, m2, i))) => p@ == p2 && m@ == m2 && *prov == config.providers@[i].1,
            (Err(e), Err(e2)) => e@ == e2,
            _ => false,
        },
{
    let first = if config.providers.len() > 0 {
        Some(config.providers[0].0.clone())
    } else {
        None
    };
    let named = first_of(&selection.provider, &config.defaults.provider);
    let name = match first_of(&named, &first) {
        None => {
            return Err(SelectionError::NoProvider);
        },
        Some(n) => n,
    };
    let i = match config.provider_index(name.as_str()) {
        None => {
            return Err(SelectionError::UnknownProvider(name));
        },
        Some(i) => i,
    };
    let provider = &config.providers[i].1;
    proof {
        crate::session::lemma_strs(provider.models@);
    }
    let fallback = if provider.models.len() > 0 {
        Some(provider.models[0].clone())
    } else {
        None
    };
    let chosen = first_of(&selection.model, &config.defaults.model);
    let model = match first_of(&chosen, &fallback) {
        None => {
            return Err(SelectionError::NoModels);
        },
        Some(m) => m,
    };
    if !contains_str(&provider.models, model.as_str()) {
        return Err(SelectionError::NotConfigured(model, name));
    }
    Ok((name, model, provider))
}

/// Reads `provider/model` and checks that the provider offers the model.
pub fn parse(config: &Config, value: &str) -> (r: Result<(String, String), SelectionError>)
    ensures
        match (r, parsed(*config, value@)) {
            (Ok((p, m)), Ok((p2, m2))) => p@ == p2 && m@ == m2,
            (Err(e), Err(e2)) => e@ == e2,
            _ => false,
        },
{
    let chars = chars_of(value);
    let (p, m) = match split_once_chars(&chars, '/') {
        None => {
            return Err(SelectionError::NotProviderModel);
        },
        Some(parts) => parts,
    };
    let provider = string_of(&p);
    let model = string_of(&m);
    match config.provider_index(provider.as_str()) {
        None => Err(SelectionError::UnknownProvider(provider)),
        Some(i) => {
            if contains_str(&config.providers[i].1.models, model.as_str()) {
                Ok((provider, model))
            } else {
                Err(SelectionError::NotOffered(model, provider))
            }
        },
    }
}

/// The stored selection, unless the session names a non-empty
/// `provider/model`, which then replaces it.
pub fn with_session_override(
    config: &Config,
    stored: &Selection,
    override_value: Option<&str>,
) -> (r: Result<Selection, SelectionError>)
    ensures
        match override_value {
            Some(v) if v@.len() > 0 => match (r, parsed(*config, v@)) {
                (Ok(s), Ok((p, m))) => opt_str(s.provider) == Some(p) && opt_str(s.model) == Some(m),
                (Err(e), Err(e2)) => e@ == e2,
                _ => false,
            },
            _ => r == Ok::<Selection, SelectionError>(*stored),
        },
{
    match override_value {
        Some(v) => {
            let c = chars_of(v);
            if c.len() > 0 {
                match parse(config, v) {
                    Ok((p, m)) => {
                        return Ok(Selection { provider: Some(p), model: Some(m) });
                    },
                    Err(e) => {
                        return Err(e);
                    },
                }
            }
        },
        None => {},
    }
    Ok(Selection { provider: stored.provider.clone(), model: stored.model.clone() })
}

/// A configuration that passes every rule resolves the empty selection:
/// with nothing stored, the defaults name a usable provider and model.
pub proof fn law_valid_config_resolves_defaults(c: Config, urls: Seq<Option<crate::urls::UrlFailure>>)
    requires
        config_problem(c, urls) is None,
    ensures
        resolved(c, Selection { provider: None, model: None }) is Ok,
{
    let name = crate::config::default_provider_name(c);
    let i = position(keys_of(c.providers@), name)->Some_0;
    crate::text::lemma_position(keys_of(c.providers@), name);
    lemma_every_provider_ok(c, urls, 0, i);
    crate::session::lemma_strs(c.providers@[i].1.models@);
}

proof fn lemma_every_provider_ok(c: Config, urls: Seq<Option<crate::urls::UrlFailure>>, k: int, j: int)
    requires
        0 <= k <= j < c.providers@.len(),
        crate::config::providers_problem(c, urls, k) is None,
    ensures
        crate::config::provider_problem(c.providers@[j].0@, c.providers@[j].1, urls[j]) is None,
    decreases j - k,
{
    if k < j {
        lemma_every_provider_ok(c, urls, k + 1, j);
    }
}

/// Naming `provider/model` and then resolving the resulting selection gives
/// back that provider and model: what `model use` stores is what `model
/// show` reports.
pub proof fn law_parsed_selection_resolves(c: Config, value: Seq<char>)
    requires
        c.wf(),
        parsed(c, value) is Ok,
    ensures
        ({
            let (p, m) = parsed(c, value)->Ok_0;
            forall|s: Selection|
                opt_str(s.provider) == Some(p) && opt_str(s.model) == Some(m) ==> (
                #[trigger] resolved(c, s) matches Ok((p2, m2, _)) && p2 == p && m2 == m)
        }),
{
}

/// What a selection resolves to: the provider it names, else the default
/// provider, else the first configured one; and the model it names, else
/// the default model, else the provider's first model. The result is a
/// configured provider and one of its models. Leaving the model (or the
/// provider) out of a selection is the same as naming the default one.
pub proof fn law_resolution_order(c: Config, s: Selection)
    ensures
        resolved(c, s) matches Ok((p, m, i)) ==> {
            &&& 0 <= i < c.providers@.len()
            &&& c.providers@[i].0@ == p
            &&& strs(c.providers@[i].1.models@).contains(m)
            &&& (s.provider matches Some(sp) ==> p == sp@)
            &&& (s.provider is None && c.defaults.provider is Some ==> p == c.defaults.provider->0@)
            &&& (s.provider is None && c.defaults.provider is None ==> p == c.providers@[0].0@)
            &&& (s.model matches Some(sm) ==> m == sm@)
            &&& (s.model is None && c.defaults.model is Some ==> m == c.defaults.model->0@)
            &&& (s.model is None && c.defaults.model is None ==> m == c.providers@[i].1.models@[0]@)
        },
        s.model is None && c.defaults.model is Some ==> resolved(c, s) == resolved(
            c,
            Selection { provider: s.provider, model: c.defaults.model },
        ),
        s.provider is None && c.defaults.provider is Some ==> resolved(c, s) == resolved(
            c,
            Selection { provider: c.defaults.provider, model: s.model },
        ),
{
    let first = if c.providers@.len() > 0 {
        Some(c.providers@[0].0@)
    } else {
        None
    };
    match or_else(or_else(opt_str(s.provider), opt_str(c.defaults.provider)), first) {
        None => {},
        Some(name) => {
            crate::text::lemma_position(keys_of(c.providers@), name);
            match position(keys_of(c.providers@), name) {
                None => {},
                Some(i) => {
                    assert(keys_of(c.providers@)[i] == c.providers@[i].0@);
                    crate::session::lemma_strs(c.providers@[i].1.models@);
                },
            }
        },
    }
}

} // verus!
