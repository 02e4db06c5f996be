//! Turning a user's request into a provider exchange, and what can stop it.

use vstd::prelude::*;

use crate::config::{join_with_spaces, join_words, layered_settings, Config, RequestSettings};
use crate::credentials::KeyError;
use crate::provider::{with_cause, ProviderError};
use crate::report::{shell_from_environment, shell_name, ShellError};
use crate::selection::{resolve, resolved, Selection, SelectionError};
use crate::text::strs;
use crate::urls::UrlError;

verus! {

/// Everything a provider exchange needs, decided before it starts.
#[derive(Clone, Debug)]
pub struct PreparedRequest {
    pub provider_name: String,
    /// Position of the provider in the configuration.
    pub provider: usize,
    pub model: String,
    pub timeout_seconds: u64,
    pub settings: RequestSettings,
    pub shell: String,
    pub request: String,
}

/// Why a request produced no command.
#[derive(Clone, Debug, PartialEq, Eq)]
pub enum RequestError {
    /// No words were given.
    NoRequest,
    /// The selection names no usable model.
    Selection(SelectionError),
    /// `SHELL_AI_SHELL` could not be read, with the cause.
    ShellUnset(String),
    /// `SHELL_AI_SHELL` names no shell.
    Shell(ShellError),
    /// No API key was found.
    Key(KeyError),
    /// The HTTP client could not be built, with the cause.
    Client(String),
    /// The provider's base URL gives no endpoint.
    Url(UrlError),
    /// The exchange gave no command.
    Provider(ProviderError),
}

impl RequestError {
    /// The message for this error.
    pub open spec fn text(&self) -> Seq<char> {
        match self {
            RequestError::NoRequest => "provide a request, for example: shell-ai ask 'find large files'"@,
            RequestError::Selection(e) => e.text(),
            RequestError::ShellUnset(c) => with_cause(
                "SHELL_AI_SHELL is not set; use a generated shell integration"@,
                c@,
            ),
            RequestError::Shell(_) => "SHELL_AI_SHELL must specify a shell"@,
            RequestError::Key(e) => e.text(),
            RequestError::Client(c) => c@,
            RequestError::Url(e) => e.text(),
            RequestError::Provider(e) => e.text(),
        }
    }

    /// The message shown for this error.
    pub fn message(&self) -> (r: String)
        ensures
            r@ == self.text(),
    {
        match self {
            RequestError::NoRequest => "provide a request, for example: shell-ai ask 'find large files'".to_owned(),
            RequestError::Selection(e) => e.message(),
            RequestError::ShellUnset(c) => crate::provider::append_cause(
                "SHELL_AI_SHELL is not set; use a generated shell integration",
                c.as_str(),
            ),
            RequestError::Shell(e) => e.message(),
            RequestError::Key(e) => e.message(),
            RequestError::Client(c) => c.clone(),
            RequestError::Url(e) => e.message(),
            RequestError::Provider(e) => e.message(),
        }
    }
}

/// Prepares a request: the words joined by spaces, the resolved provider
/// and model with their layered settings, the configured timeout, and the
/// shell named by `shell_variable` (the value of `SHELL_AI_SHELL`, or why
/// it could not be read). Fails, in this order, on no words, on a selection
/// that does not resolve, and on a missing or empty shell name.
pub fn prepare_request(
    config: &Config,
    state: &Selection,
    request: &Vec<String>,
    shell_variable: Result<String, String>,
) -> (r: Result<PreparedRequest, RequestError>)
    ensures
        request@.len() == 0 ==> r == Err::<PreparedRequest, RequestError>(RequestError::NoRequest),
        request@.len() > 0 ==> match resolved(*config, *state) {
            Err(e) => r matches Err(RequestError::Selection(e2)) && e2@ == e,
            Ok((p, m, i)) => match shell_variable {
                Err(c) => r matches Err(RequestError::ShellUnset(c2)) && c2@ == c@,
                Ok(v) => if shell_name(v@).len() == 0 {
                    r matches Err(RequestError::Shell(_))
                } else {
                    r matches Ok(q) && q.provider_name@ == p && q.model@ == m && q.provider == i
                        && q.settings == layered_settings(*config, config.providers@[i].1, m)
                        && q.timeout_seconds == config.defaults.timeout_seconds && q.shell@
                        == shell_name(v@) && q.request@ == join_words(strs(request@))
                },
            },
        },
{
    if request.len() == 0 {
        return Err(RequestError::NoRequest);
    }
    let joined = join_with_spaces(request);
    let (provider_name, model, provider) = match resolve(config, state) {
        Ok(found) => found,
        Err(e) => {
            return Err(RequestError::Selection(e));
        },
    };
    let settings = config.request_settings(provider, model.as_str());
    let shell = match shell_variable {
        Err(cause) => {
            return Err(RequestError::ShellUnset(cause));
        },
        Ok(value) => match shell_from_environment(value.as_str()) {
            Ok(s) => s,
            Err(e) => {
                return Err(RequestError::Shell(e));
            },
        },
    };
    let index = match config.provider_index(provider_name.as_str()) {
        Some(i) => i,
        None => {
            return Err(RequestError::Selection(SelectionError::UnknownProvider(provider_name)));
        },
    };
    Ok(
        PreparedRequest {
            provider_name,
            provider: index,
            model,
            timeout_seconds: config.defaults.timeout_seconds,
            settings,
            shell,
            request: joined,
        },
    )
}

} // verus!
