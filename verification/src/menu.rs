//! Choosing among the configured models, and the session's settings.

use vstd::prelude::*;

use crate::config::{Config, Provider};
use crate::keyed::keys_of;
use crate::selection::{parse, parsed, resolve, resolved, Selection, SelectionError};
use crate::session::{opt_str, HistoryStyle, MenuStyle, SessionConfig};
use crate::text::{chars_of, concat_str, position, position_of, push_char, strs};
use crate::theme::Colors;

verus! {

/// `provider/model`.
pub open spec fn model_id(provider: Seq<char>, model: Seq<char>) -> Seq<char> {
    provider + seq!['/'] + model
}

/// `provider/model` for each model of `provider`, in order.
pub open spec fn ids_of(provider: Seq<char>, models: Seq<Seq<char>>) -> Seq<Seq<char>> {
    models.map_values(|m: Seq<char>| model_id(provider, m))
}

/// `provider/model` for every model of every provider, providers in order.
pub open spec fn model_ids(providers: Seq<(String, Provider)>) -> Seq<Seq<char>>
    decreases providers.len(),
{
    if providers.len() == 0 {
        Seq::empty()
    } else {
        model_ids(providers.drop_last()) + ids_of(providers.last().0@, strs(providers.last().1.models@))
    }
}

/// `provider/model`.
pub fn join_model(provider: &str, model: &str) -> (r: String)
    ensures
        r@ == model_id(provider@, model@),
{
    let mut p = provider.to_owned();
    push_char(&mut p, '/');
    concat_str(p.as_str(), model)
}

/// Every configured model as `provider/model`, providers in name order and
/// each provider's models in their order (what `model list` prints).
pub fn model_items(config: &Config) -> (r: Vec<String>)
    ensures
        strs(r@) == model_ids(config.providers@),
{
    let mut out: Vec<String> = Vec::new();
    let mut i: usize = 0;
    while i < config.providers.len()
        invariant
            i <= config.providers@.len(),
            strs(out@) == model_ids(config.providers@.take(i as int)),
        decreases config.providers@.len() - i,
    {
        let name = &config.providers[i].0;
        let models = &config.providers[i].1.models;
        let ghost start = strs(out@);
        let mut k: usize = 0;
        while k < models.len()
            invariant
                k <= models@.len(),
                strs(out@) == start + ids_of(name@, strs(models@).take(k as int)),
            decreases models@.len() - k,
        {
            proof {
                crate::session::lemma_strs(models@);
            }
            let ghost before = out@;
            out.push(join_model(name.as_str(), models[k].as_str()));
            proof {
                crate::session::lemma_strs(before);
                crate::session::lemma_strs(out@);
                assert(ids_of(name@, strs(models@).take(k + 1)) =~= ids_of(
                    name@,
                    strs(models@).take(k as int),
                ).push(model_id(name@, models@[k as int]@)));
                assert(strs(out@) =~= strs(before).push(model_id(name@, models@[k as int]@)));
            }
            k = k + 1;
            assert(strs(out@) =~= start + ids_of(name@, strs(models@).take(k as int)));
        }
        proof {
            crate::session::lemma_strs(models@);
            assert(strs(models@).take(models@.len() as int) =~= strs(models@));
            assert(config.providers@.take(i + 1).drop_last() =~= config.providers@.take(i as int));
        }
        i = i + 1;
    }
    assert(config.providers@.take(config.providers@.len() as int) =~= config.providers@);
    out
}

/// The names of the configured providers, in order.
pub fn provider_options(config: &Config) -> (r: Vec<String>)
    ensures
        strs(r@) == keys_of(config.providers@),
{
    let mut out: Vec<String> = Vec::new();
    let mut i: usize = 0;
    while i < config.providers.len()
        invariant
            i <= config.providers@.len(),
            strs(out@) == keys_of(config.providers@).take(i as int),
        decreases config.providers@.len() - i,
    {
        let ghost before = out@;
        out.push(config.providers[i].0.clone());
        proof {
            crate::session::lemma_strs(before);
            crate::session::lemma_strs(out@);
        }
        i = i + 1;
        assert(strs(out@) =~= keys_of(config.providers@).take(i as int));
    }
    assert(keys_of(config.providers@).take(i as int) =~= keys_of(config.providers@));
    out
}

/// The models of the provider named `provider`, or none when there is no
/// such provider.
pub fn model_options(config: &Config, provider: &str) -> (r: Vec<String>)
    ensures
        strs(r@) == match position(keys_of(config.providers@), provider@) {
            Some(i) => strs(config.providers@[i].1.models@),
            None => Seq::empty(),
        },
{
    match config.provider_index(provider) {
        Some(i) => {
            let models = &config.providers[i].1.models;
            let mut out: Vec<String> = Vec::new();
            let mut k: usize = 0;
            while k < models.len()
                invariant
                    k <= models@.len(),
                    strs(out@) == strs(models@).take(k as int),
                decreases models@.len() - k,
            {
                proof {
                    crate::session::lemma_strs(models@);
                }
                let ghost before = out@;
                out.push(models[k].clone());
                proof {
                    crate::session::lemma_strs(before);
                    crate::session::lemma_strs(out@);
                }
                k = k + 1;
                assert(strs(out@) =~= strs(models@).take(k as int));
            }
            assert(strs(models@).take(k as int) =~= strs(models@));
            out
        },
        None => Vec::new(),
    }
}

/// The active model as `provider/model`.
pub fn current_model(config: &Config, state: &Selection) -> (r: Result<String, SelectionError>)
    ensures
        match (r, resolved(*config, *state)) {
            (Ok(s), Ok((p, m, _))) => s@ == model_id(p, m),
            (Err(e), Err(e2)) => e@ == e2,
            _ => false,
        },
{
    match resolve(config, state) {
        Ok((p, m, _)) => Ok(join_model(p.as_str(), m.as_str())),
        Err(e) => Err(e),
    }
}

/// The selection that `value` (`provider/model`) names, when the provider
/// offers that model.
pub fn select_model(config: &Config, value: &str) -> (r: Result<Selection, SelectionError>)
    ensures
        match (r, parsed(*config, value@)) {
            (Ok(s), Ok((p, m))) => opt_str(s.provider) == Some(p) && opt_str(s.model) == Some(m),
            (Err(e), Err(e2)) => e@ == e2,
            _ => false,
        },
{
    match parse(config, value) {
        Ok((p, m)) => Ok(Selection { provider: Some(p), model: Some(m) }),
        Err(e) => Err(e),
    }
}

/// Where a picker starts: on `current` when it is one of `items`, else on
/// the first item.
pub open spec fn start_index(items: Seq<Seq<char>>, current: Option<Seq<char>>) -> int {
    match current {
        Some(c) => match position(items, c) {
            Some(i) => i,
            None => 0,
        },
        None => 0,
    }
}

/// Where a picker of `items` starts, given the active entry if known.
pub fn default_item(items: &Vec<String>, current: &Option<String>) -> (r: usize)
    ensures
        r == start_index(strs(items@), opt_str(*current)),
{
    match current {
        Some(c) => match position_of(items, c.as_str()) {
            Some(i) => i,
            None => 0,
        },
        None => 0,
    }
}

/// Why the model picker cannot open.
#[derive(Clone, Copy, Debug, PartialEq, Eq)]
pub enum MenuError {
    /// No provider offers a model.
    NoModels,
}

impl MenuError {
    /// The message shown for this error.
    pub fn message(&self) -> (r: String)
        ensures
            r@ == "no models are configured"@,
    {
        "no models are configured".to_owned()
    }
}

/// The model picker's entries and where it starts, given the active model
/// if it is known; with no configured model there is nothing to pick.
pub fn model_menu(config: &Config, current: &Option<String>) -> (r: Result<(Vec<String>, usize), MenuError>)
    ensures
        model_ids(config.providers@).len() == 0 ==> r is Err,
        model_ids(config.providers@).len() > 0 ==> (r matches Ok((items, start)) && strs(items@)
            == model_ids(config.providers@) && start == start_index(
            model_ids(config.providers@),
            opt_str(*current),
        )),
{
    let items = model_items(config);
    proof {
        crate::session::lemma_strs(items@);
    }
    if items.len() == 0 {
        return Err(MenuError::NoModels);
    }
    let start = default_item(&items, current);
    Ok((items, start))
}

/// The first character of a validated key.
fn first_char(key: &str) -> (r: char)
    requires
        key@.len() > 0,
    ensures
        r == key@[0],
{
    let c = chars_of(key);
    c[0]
}

/// The settings of a request session, from the configuration and the
/// theme's colors.
pub fn session_config(config: &Config, colors: &Colors) -> (r: SessionConfig)
    requires
        config.defaults.history_key@.len() > 0,
        config.defaults.menu_key@.len() > 0,
    ensures
        r.prompt@ == config.defaults.prompt@,
        r.prompt_color == colors.ai_prompt,
        r.input_color == colors.input,
        r.error_color == colors.error,
        r.history_key == config.defaults.history_key@[0],
        r.menu_key == config.defaults.menu_key@[0],
        r.history_style == (HistoryStyle {
            prompt: colors.history_prompt,
            input: colors.history_input,
            item: colors.history_item,
            matched: colors.history_match,
            active: colors.history_active,
            active_match: colors.history_active_match,
        }),
        r.menu_style == (MenuStyle {
            prompt: colors.menu_prompt,
            item: colors.menu_item,
            active: colors.menu_active,
        }),
{
    SessionConfig {
        prompt: config.defaults.prompt.clone(),
        prompt_color: colors.ai_prompt,
        input_color: colors.input,
        error_color: colors.error,
        history_key: first_char(config.defaults.history_key.as_str()),
        menu_key: first_char(config.defaults.menu_key.as_str()),
        history_style: HistoryStyle {
            prompt: colors.history_prompt,
            input: colors.history_input,
            item: colors.history_item,
            matched: colors.history_match,
            active: colors.history_active,
            active_match: colors.history_active_match,
        },
        menu_style: MenuStyle {
            prompt: colors.menu_prompt,
            item: colors.menu_item,
            active: colors.menu_active,
        },
    }
}

/// Each entry of `model_ids` is some provider's name, a slash and one of
/// its models.
proof fn lemma_model_id_parts(providers: Seq<(String, Provider)>, k: int)
    requires
        0 <= k < model_ids(providers).len(),
    ensures
        exists|i: int, j: int|
            0 <= i < providers.len() && 0 <= j < providers[i].1.models@.len() && model_ids(
                providers,
            )[k] == #[trigger] model_id(providers[i].0@, providers[i].1.models@[j]@),
    decreases providers.len(),
{
    let front = providers.drop_last();
    let last = providers.last();
    crate::session::lemma_strs(last.1.models@);
    if k < model_ids(front).len() {
        lemma_model_id_parts(front, k);
        let (i, j) = choose|i: int, j: int|
            0 <= i < front.len() && 0 <= j < front[i].1.models@.len() && model_ids(front)[k]
                == #[trigger] model_id(front[i].0@, front[i].1.models@[j]@);
        assert(providers[i] == front[i]);
        assert(model_id(providers[i].0@, providers[i].1.models@[j]@) == model_ids(providers)[k]);
    } else {
        let j = k - model_ids(front).len();
        let i = providers.len() - 1;
        assert(model_ids(providers)[k] == ids_of(last.0@, strs(last.1.models@))[j]);
        assert(model_id(providers[i].0@, providers[i].1.models@[j]@) == model_ids(providers)[k]);
    }
}

/// Every entry of the model menu reads back as the provider and model it
/// was made from, provided no provider name holds a slash: what the picker
/// offers is what `model use` and the session accept.
pub proof fn law_menu_entries_parse(c: Config, k: int)
    requires
        c.wf(),
        forall|i: int| 0 <= i < c.providers@.len() ==> !(#[trigger] c.providers@[i].0@).contains('/'),
        0 <= k < model_ids(c.providers@).len(),
    ensures
        parsed(c, model_ids(c.providers@)[k]) matches Ok((p, m)) && model_id(p, m) == model_ids(
            c.providers@,
        )[k],
{
    lemma_model_id_parts(c.providers@, k);
    let (i, j) = choose|i: int, j: int|
        0 <= i < c.providers@.len() && 0 <= j < c.providers@[i].1.models@.len() && model_ids(
            c.providers@,
        )[k] == #[trigger] model_id(c.providers@[i].0@, c.providers@[i].1.models@[j]@);
    let name = c.providers@[i].0@;
    let model = c.providers@[i].1.models@[j]@;
    let item = model_id(name, model);
    assert(!name.contains('/'));
    assert(crate::text::first_char_at(item, '/', name.len() as int)) by {
        assert(item[name.len() as int] == '/');
        assert forall|x: int| 0 <= x < name.len() implies item[x] != '/' by {
            assert(item[x] == name[x]);
        }
    }
    crate::text::lemma_first_char_at(item, '/', name.len() as int);
    assert(item.take(name.len() as int) =~= name);
    assert(item.skip(name.len() as int + 1) =~= model);
    let keys = keys_of(c.providers@);
    assert(crate::text::first_str_at(keys, name, i)) by {
        assert forall|x: int| 0 <= x < i implies keys[x] != name by {
            crate::keyed::lemma_ascending_distinct(keys, x, i);
        }
    }
    crate::text::lemma_first_str_at(keys, name, i);
    crate::session::lemma_strs(c.providers@[i].1.models@);
    assert(strs(c.providers@[i].1.models@)[j] == model);
}

} // verus!
