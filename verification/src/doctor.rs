//! The installation checks that `doctor` reports.

use vstd::prelude::*;

use crate::config::{ApiKeySource, Config};
use crate::menu::{join_model, model_id};
use crate::selection::{problem_text, resolve, resolved, Selection};
use crate::text::{chars_of, concat_str, decimal, decimal_string, push_char};

verus! {

/// One line of the report.
#[derive(Clone, Debug, PartialEq, Eq)]
pub struct DoctorCheck {
    pub name: String,
    pub detail: String,
    pub ok: bool,
}

/// `s` padded with spaces to `width` characters.
pub open spec fn padded(s: Seq<char>, width: nat) -> Seq<char> {
    if s.len() < width {
        s + Seq::new((width - s.len()) as nat, |i: int| ' ')
    } else {
        s
    }
}

/// How a check is shown: its status padded to four characters, its name
/// padded to thirteen, and its detail.
pub open spec fn check_line(c: DoctorCheck) -> Seq<char> {
    padded(
        if c.ok {
            "OK"@
        } else {
            "FAIL"@
        },
        4,
    ) + seq![' '] + padded(c.name@, 13) + seq![' '] + c.detail@
}

fn pad(s: &str, width: usize) -> (r: String)
    ensures
        r@ == padded(s@, width as nat),
{
    let n = chars_of(s).len();
    let mut r = s.to_owned();
    if n < width {
        let mut k: usize = n;
        while k < width
            invariant
                n <= k <= width,
                n == s@.len(),
                r@ == s@ + Seq::new((k - n) as nat, |i: int| ' '),
            decreases width - k,
        {
            push_char(&mut r, ' ');
            k = k + 1;
            assert(r@ =~= s@ + Seq::new((k - n) as nat, |i: int| ' '));
        }
    }
    r
}

impl DoctorCheck {
    /// A passed check.
    pub fn ok(name: &str, detail: String) -> (r: DoctorCheck)
        ensures
            r.name@ == name@,
            r.detail == detail,
            r.ok,
    {
        DoctorCheck { name: name.to_owned(), detail, ok: true }
    }

    /// A failed check.
    pub fn fail(name: &str, detail: String) -> (r: DoctorCheck)
        ensures
            r.name@ == name@,
            r.detail == detail,
            !r.ok,
    {
        DoctorCheck { name: name.to_owned(), detail, ok: false }
    }

    /// The report line for this check.
    pub fn line(&self) -> (r: String)
        ensures
            r@ == check_line(*self),
    {
        let status = pad(
            if self.ok {
                "OK"
            } else {
                "FAIL"
            },
            4,
        );
        let mut a = status;
        push_char(&mut a, ' ');
        let b = concat_str(a.as_str(), pad(self.name.as_str(), 13).as_str());
        let mut c = b;
        push_char(&mut c, ' ');
        concat_str(c.as_str(), self.detail.as_str())
    }
}

/// Whether every check passed.
pub fn all_passed(checks: &Vec<DoctorCheck>) -> (r: bool)
    ensures
        r == forall|i: int| 0 <= i < checks@.len() ==> (#[trigger] checks@[i]).ok,
{
    let mut i: usize = 0;
    while i < checks.len()
        invariant
            i <= checks@.len(),
            forall|j: int| 0 <= j < i ==> (#[trigger] checks@[j]).ok,
        decreases checks@.len() - i,
    {
        if !checks[i].ok {
            return false;
        }
        i = i + 1;
    }
    true
}

/// The check of the running binary, at `executable`.
pub fn binary_check(executable: &str) -> (r: DoctorCheck)
    ensures
        r.ok,
        r.name@ == "binary"@,
        r.detail@ == "running "@ + executable@,
{
    DoctorCheck::ok("binary", concat_str("running ", executable))
}

/// The check that `shell-ai` on `PATH` is the running binary: `found` is
/// the binary that `PATH` gives, if any, and `same` whether it is the
/// running one.
pub fn path_check(found: Option<&str>, same: bool, executable: &str) -> (r: DoctorCheck)
    ensures
        r.name@ == "PATH"@,
        r.ok == (found is Some && same),
        match found {
            Some(p) => if same {
                r.detail@ == p@
            } else {
                r.detail@ == "shell-ai resolves to "@ + p@ + ", not "@ + executable@
            },
            None => r.detail@ == "shell-ai is not on PATH"@,
        },
{
    match found {
        Some(p) => if same {
            DoctorCheck::ok("PATH", p.to_owned())
        } else {
            let a = concat_str("shell-ai resolves to ", p);
            let b = concat_str(a.as_str(), ", not ");
            DoctorCheck::fail("PATH", concat_str(b.as_str(), executable))
        },
        None => DoctorCheck::fail("PATH", "shell-ai is not on PATH".to_owned()),
    }
}

/// The check of the configuration at `path`: the number of providers it
/// configures, or why it could not be loaded; `exists` tells a file from
/// the built-in configuration.
pub fn config_check(path: &str, loaded: &Result<usize, String>, exists: bool) -> (r: DoctorCheck)
    ensures
        r.name@ == "config.toml"@,
        r.ok == loaded is Ok,
        match loaded {
            Err(e) => r.detail@ == "cannot load "@ + path@ + ": "@ + e@,
            Ok(n) => if exists {
                r.detail@ == decimal(*n as nat) + " provider(s) configured"@
            } else {
                r.detail@ == "not found at "@ + path@ + "; using "@ + decimal(*n as nat)
                    + " built-in provider(s)"@
            },
        },
{
    match loaded {
        Err(e) => {
            let a = concat_str("cannot load ", path);
            let b = concat_str(a.as_str(), ": ");
            DoctorCheck::fail("config.toml", concat_str(b.as_str(), e.as_str()))
        },
        Ok(n) => {
            let count = decimal_string(*n as u64);
            if exists {
                DoctorCheck::ok("config.toml", concat_str(count.as_str(), " provider(s) configured"))
            } else {
                let a = concat_str("not found at ", path);
                let b = concat_str(a.as_str(), "; using ");
                let c = concat_str(b.as_str(), count.as_str());
                DoctorCheck::ok("config.toml", concat_str(c.as_str(), " built-in provider(s)"))
            }
        },
    }
}

/// The checks of the stored selection: whether it could be read, and the
/// model it resolves to. When it resolves, the position of its provider
/// comes back too, for the API key check.
pub fn selection_checks(config: &Config, state: &Result<Selection, String>) -> (r: (
    Vec<DoctorCheck>,
    Option<usize>,
))
    ensures
        r.0@.len() == 1,
        match state {
            Err(e) => r.0@[0].name@ == "state.toml"@ && !r.0@[0].ok && r.0@[0].detail@ == e@
                && r.1 is None,
            Ok(s) => r.0@[0].name@ == "active model"@ && match resolved(*config, *s) {
                Ok((p, m, i)) => r.0@[0].ok && r.0@[0].detail@ == model_id(p, m) && r.1 == Some(
                    i as usize,
                ),
                Err(p) => !r.0@[0].ok && r.1 is None && r.0@[0].detail@ == problem_text(p),
            },
        },
{
    let mut checks: Vec<DoctorCheck> = Vec::new();
    match state {
        Err(e) => {
            checks.push(DoctorCheck::fail("state.toml", e.clone()));
            (checks, None)
        },
        Ok(s) => match resolve(config, s) {
            Err(e) => {
                checks.push(DoctorCheck::fail("active model", e.message()));
                (checks, None)
            },
            Ok((p, m, _)) => {
                let index = config.provider_index(p.as_str());
                checks.push(DoctorCheck::ok("active model", join_model(p.as_str(), m.as_str())));
                (checks, index)
            },
        },
    }
}

/// The API key check, given the provider's key source and whether a key
/// was found (or why not).
pub fn key_check(source: &ApiKeySource, outcome: &Result<(), String>) -> (r: DoctorCheck)
    ensures
        r.name@ == "API key"@,
        r.ok == outcome is Ok,
        match outcome {
            Ok(()) => r.detail@ == crate::config::source_text(*source) + " returned a key"@,
            Err(e) => r.detail@ == e@,
        },
{
    match outcome {
        Ok(()) => DoctorCheck::ok(
            "API key",
            concat_str(source.description().as_str(), " returned a key"),
        ),
        Err(e) => DoctorCheck::fail("API key", e.clone()),
    }
}

} // verus!
