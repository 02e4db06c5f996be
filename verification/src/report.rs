//! How failures are grouped for exit codes and session messages, and the
//! shell named by the integration.

use vstd::prelude::*;

use crate::text::{chars_of, occurs_at, string_of};

verus! {

/// A group of failures that share an exit code and a session message.
#[derive(Clone, Copy, Debug, PartialEq, Eq)]
pub enum ErrorBucket {
    ModelUnavailable,
    RateLimited,
    ApiKey,
    Configuration,
    RequestFailed,
}

impl ErrorBucket {
    /// The process exit code for this group.
    pub open spec fn code(self) -> i32 {
        match self {
            ErrorBucket::ModelUnavailable => 10,
            ErrorBucket::RateLimited => 11,
            ErrorBucket::ApiKey => 12,
            ErrorBucket::Configuration => 13,
            ErrorBucket::RequestFailed => 14,
        }
    }

    /// The process exit code for this group.
    pub fn exit_code(self) -> (r: i32)
        ensures
            r == self.code(),
    {
        match self {
            ErrorBucket::ModelUnavailable => 10,
            ErrorBucket::RateLimited => 11,
            ErrorBucket::ApiKey => 12,
            ErrorBucket::Configuration => 13,
            ErrorBucket::RequestFailed => 14,
        }
    }
}

/// `c` with ASCII upper-case letters made lower-case.
pub open spec fn ascii_lower(c: char) -> char {
    if 'A' <= c <= 'Z' {
        ((c as u32) + 32) as char
    } else {
        c
    }
}

/// `s` with ASCII upper-case letters made lower-case (as
/// `str::to_ascii_lowercase`).
pub open spec fn lowered(s: Seq<char>) -> Seq<char> {
    s.map_values(|c: char| ascii_lower(c))
}

/// `c` with ASCII lower-case letters made upper-case.
pub open spec fn ascii_upper(c: char) -> char {
    if 'a' <= c <= 'z' {
        ((c as u32) - 32) as char
    } else {
        c
    }
}

/// `s` with ASCII lower-case letters made upper-case (as
/// `str::to_ascii_uppercase`).
pub open spec fn raised(s: Seq<char>) -> Seq<char> {
    s.map_values(|c: char| ascii_upper(c))
}

/// Whether `part` occurs in `s`.
pub open spec fn has_part(s: Seq<char>, part: Seq<char>) -> bool {
    exists|i: int| 0 <= i && i + part.len() <= s.len() && #[trigger] s.subrange(i, i + part.len()) == part
}

fn lower_chars(s: &Vec<char>) -> (r: Vec<char>)
    ensures
        r@ == lowered(s@),
{
    let mut r: Vec<char> = Vec::new();
    let mut i: usize = 0;
    while i < s.len()
        invariant
            i <= s@.len(),
            r@ == lowered(s@.take(i as int)),
        decreases s@.len() - i,
    {
        let c = s[i];
        let l = if 'A' <= c && c <= 'Z' {
            ((c as u8) + 32) as char
        } else {
            c
        };
        proof {
            if 'A' <= c && c <= 'Z' {
                assert(((c as u8) + 32) as char == ((c as u32) + 32) as char);
            }
        }
        r.push(l);
        i = i + 1;
        assert(r@ =~= lowered(s@.take(i as int)));
    }
    assert(s@.take(s@.len() as int) =~= s@);
    r
}

/// Whether `part` occurs in `s`.
pub fn contains_part(s: &Vec<char>, part: &str) -> (r: bool)
    ensures
        r == has_part(s@, part@),
{
    let p = chars_of(part);
    let n = s.len();
    if p.len() > n {
        return false;
    }
    let last = n - p.len();
    let mut i: usize = 0;
    loop
        invariant
            p@ == part@,
            n == s@.len(),
            last == n - p@.len(),
            i <= last,
            forall|j: int| 0 <= j < i ==> #[trigger] s@.subrange(j, j + p@.len()) != p@,
        ensures
            forall|j: int| 0 <= j <= last ==> #[trigger] s@.subrange(j, j + p@.len()) != p@,
        decreases last - i,
    {
        if occurs_at(s, &p, i) {
            return true;
        }
        if i == last {
            break;
        }
        i = i + 1;
    }
    false
}

/// The group of a failure, judged from its message with ASCII letters
/// lower-cased: a key problem, else a rate limit, else a configuration
/// problem, else an unavailable model, else a failed request.
pub open spec fn bucket_of(message: Seq<char>) -> ErrorBucket {
    let m = lowered(message);
    if has_part(m, "api_key"@) || has_part(m, "api key"@) || has_part(m, " 401 "@) || has_part(
        m,
        "unauthorized"@,
    ) || has_part(m, "forbidden"@) {
        ErrorBucket::ApiKey
    } else if has_part(m, "429"@) || has_part(m, "too many requests"@) {
        ErrorBucket::RateLimited
    } else if has_part(m, "not configured"@) || has_part(m, "unknown provider"@) || has_part(
        m,
        "no provider configured"@,
    ) || has_part(m, "has no models"@) || has_part(m, "base_url"@) || has_part(m, "defaults."@)
        || has_part(m, "parse configuration"@) {
        ErrorBucket::Configuration
    } else if has_part(m, "model "@) && (has_part(m, "archived"@) || has_part(m, "unavailable"@)
        || has_part(m, "not found"@)) {
        ErrorBucket::ModelUnavailable
    } else {
        ErrorBucket::RequestFailed
    }
}

/// The group of the failure described by `error`.
pub fn error_bucket(error: &str) -> (r: ErrorBucket)
    ensures
        r == bucket_of(error@),
{
    let m = lower_chars(&chars_of(error));
    if contains_part(&m, "api_key") || contains_part(&m, "api key") || contains_part(&m, " 401 ")
        || contains_part(&m, "unauthorized") || contains_part(&m, "forbidden") {
        ErrorBucket::ApiKey
    } else if contains_part(&m, "429") || contains_part(&m, "too many requests") {
        ErrorBucket::RateLimited
    } else if contains_part(&m, "not configured") || contains_part(&m, "unknown provider")
        || contains_part(&m, "no provider configured") || contains_part(&m, "has no models")
        || contains_part(&m, "base_url") || contains_part(&m, "defaults.") || contains_part(
        &m,
        "parse configuration",
    ) {
        ErrorBucket::Configuration
    } else if contains_part(&m, "model ") && (contains_part(&m, "archived") || contains_part(
        &m,
        "unavailable",
    ) || contains_part(&m, "not found")) {
        ErrorBucket::ModelUnavailable
    } else {
        ErrorBucket::RequestFailed
    }
}

/// What a session shows for a failure in `bucket`.
pub open spec fn bucket_message(bucket: ErrorBucket) -> Seq<char> {
    match bucket {
        ErrorBucket::ModelUnavailable => "model unavailable; select another model"@,
        ErrorBucket::RateLimited => "provider is busy; try again soon"@,
        ErrorBucket::ApiKey => "API key problem; check your provider setup"@,
        ErrorBucket::Configuration => "configuration problem; run shell-ai doctor"@,
        ErrorBucket::RequestFailed => "request failed; check the log"@,
    }
}

/// The short message a session shows for the failure `detail`; the detail
/// itself goes to the log.
pub fn session_error(detail: &str) -> (r: String)
    ensures
        r@ == bucket_message(bucket_of(detail@)),
{
    match error_bucket(detail) {
        ErrorBucket::ModelUnavailable => "model unavailable; select another model".to_owned(),
        ErrorBucket::RateLimited => "provider is busy; try again soon".to_owned(),
        ErrorBucket::ApiKey => "API key problem; check your provider setup".to_owned(),
        ErrorBucket::Configuration => "configuration problem; run shell-ai doctor".to_owned(),
        ErrorBucket::RequestFailed => "request failed; check the log".to_owned(),
    }
}

/// A character that may stand in a shell name: ASCII letter or digit,
/// `-`, `_` or `.`.
pub open spec fn shell_name_char(c: char) -> bool {
    ('a' <= c <= 'z') || ('A' <= c <= 'Z') || ('0' <= c <= '9') || c == '-' || c == '_' || c == '.'
}

/// The characters of `s` that may stand in a shell name, in order.
pub open spec fn shell_name(s: Seq<char>) -> Seq<char> {
    s.filter(|c: char| shell_name_char(c))
}

/// Why the integration named no shell.
#[derive(Clone, Copy, Debug, PartialEq, Eq)]
pub enum ShellError {
    /// Nothing is left once characters that no shell name holds are dropped.
    Empty,
}

impl ShellError {
    /// The message shown for this error.
    pub fn message(&self) -> (r: String)
        ensures
            r@ == "SHELL_AI_SHELL must specify a shell"@,
    {
        "SHELL_AI_SHELL must specify a shell".to_owned()
    }
}

/// The shell named by the integration's `SHELL_AI_SHELL` value, with every
/// character that no shell name holds dropped.
pub fn shell_from_environment(shell: &str) -> (r: Result<String, ShellError>)
    ensures
        shell_name(shell@).len() == 0 ==> r is Err,
        shell_name(shell@).len() > 0 ==> (r matches Ok(s) && s@ == shell_name(shell@)),
{
    let c = chars_of(shell);
    let mut kept: Vec<char> = Vec::new();
    let mut i: usize = 0;
    while i < c.len()
        invariant
            i <= c@.len(),
            c@ == shell@,
            kept@ == shell_name(c@.take(i as int)),
        decreases c@.len() - i,
    {
        let ch = c[i];
        let keep = ('a' <= ch && ch <= 'z') || ('A' <= ch && ch <= 'Z') || ('0' <= ch && ch <= '9')
            || ch == '-' || ch == '_' || ch == '.';
        proof {
            reveal(Seq::filter);
            assert(c@.take(i + 1).drop_last() =~= c@.take(i as int));
        }
        if keep {
            kept.push(ch);
        }
        i = i + 1;
        assert(kept@ =~= shell_name(c@.take(i as int)));
    }
    assert(c@.take(c@.len() as int) =~= c@);
    if kept.len() == 0 {
        Err(ShellError::Empty)
    } else {
        Ok(string_of(&kept))
    }
}

/// The group of a failure does not depend on the case of its ASCII
/// letters: upper-casing the message keeps it.
pub proof fn law_bucket_ignores_ascii_case(message: Seq<char>)
    ensures
        bucket_of(raised(message)) == bucket_of(message),
{
    assert forall|i: int| 0 <= i < message.len() implies #[trigger] lowered(raised(message))[i] == lowered(
        message,
    )[i] by {
        let c = message[i];
        if 'a' <= c <= 'z' {
            assert((((c as u32) - 32) as char) as u32 == (c as u32) - 32);
            assert((((c as u32) - 32) as char as u32 + 32) as char == c);
        }
    }
    assert(lowered(raised(message)) =~= lowered(message));
}

/// How a failure message is grouped, its ASCII letters taken in lower
/// case: a mention of an API key, ` 401 `, "unauthorized" or "forbidden"
/// is a key problem; else "429" or "too many requests" a rate limit; else
/// "not configured", "unknown provider", "no provider configured", "has no
/// models", "base_url", "defaults." or "parse configuration" a
/// configuration problem; else "model " with "archived", "unavailable" or
/// "not found" an unavailable model; and anything else a failed request.
/// Each group is taken exactly when its marks say so.
pub proof fn law_failure_groups(message: Seq<char>)
    ensures
        ({
            let m = lowered(message);
            let key = has_part(m, "api_key"@) || has_part(m, "api key"@) || has_part(m, " 401 "@)
                || has_part(m, "unauthorized"@) || has_part(m, "forbidden"@);
            let rate = has_part(m, "429"@) || has_part(m, "too many requests"@);
            let config = has_part(m, "not configured"@) || has_part(m, "unknown provider"@)
                || has_part(m, "no provider configured"@) || has_part(m, "has no models"@)
                || has_part(m, "base_url"@) || has_part(m, "defaults."@) || has_part(
                m,
                "parse configuration"@,
            );
            let model = has_part(m, "model "@) && (has_part(m, "archived"@) || has_part(
                m,
                "unavailable"@,
            ) || has_part(m, "not found"@));
            &&& (bucket_of(message) == ErrorBucket::ApiKey <==> key)
            &&& (bucket_of(message) == ErrorBucket::RateLimited <==> !key && rate)
            &&& (bucket_of(message) == ErrorBucket::Configuration <==> !key && !rate && config)
            &&& (bucket_of(message) == ErrorBucket::ModelUnavailable <==> !key && !rate && !config && model)
            &&& (bucket_of(message) == ErrorBucket::RequestFailed <==> !key && !rate && !config && !model)
        }),
{
}

/// The exit code and the session message of each group.
pub proof fn law_failure_codes(message: Seq<char>)
    ensures
        bucket_of(message) == ErrorBucket::ModelUnavailable ==> bucket_of(message).code() == 10
            && bucket_message(bucket_of(message)) == "model unavailable; select another model"@,
        bucket_of(message) == ErrorBucket::RateLimited ==> bucket_of(message).code() == 11
            && bucket_message(bucket_of(message)) == "provider is busy; try again soon"@,
        bucket_of(message) == ErrorBucket::ApiKey ==> bucket_of(message).code() == 12
            && bucket_message(bucket_of(message)) == "API key problem; check your provider setup"@,
        bucket_of(message) == ErrorBucket::Configuration ==> bucket_of(message).code() == 13
            && bucket_message(bucket_of(message)) == "configuration problem; run shell-ai doctor"@,
        bucket_of(message) == ErrorBucket::RequestFailed ==> bucket_of(message).code() == 14
            && bucket_message(bucket_of(message)) == "request failed; check the log"@,
{
}

} // verus!
