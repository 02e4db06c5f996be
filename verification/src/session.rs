//! The request session as a state machine: the caller renders, reads keys,
//! runs pickers and provider requests, and feeds each outcome back.

use vstd::prelude::*;

use crate::input::{is_text_edit, InputBuffer, InputView, TerminalEvent};
use crate::report::{contains_part, has_part};
use crate::text::{
    chars_of, contains_str, position, position_of, split_once, split_once_chars, string_of, strs,
    trim_chars, trimmed,
};
use crate::utf8::byte_len;

verus! {

/// Colors of the command menu.
#[derive(Clone, Copy, Debug, Default, PartialEq, Eq)]
pub struct MenuStyle {
    pub prompt: Option<u8>,
    pub item: Option<u8>,
    pub active: Option<u8>,
}

/// Colors of the prompt history picker.
#[derive(Clone, Copy, Debug, Default, PartialEq, Eq)]
pub struct HistoryStyle {
    pub prompt: Option<u8>,
    pub input: Option<u8>,
    pub item: Option<u8>,
    pub matched: Option<u8>,
    pub active: Option<u8>,
    pub active_match: Option<u8>,
}

/// The settings that affect root request interaction and rendering.
#[derive(Clone, Debug)]
pub struct SessionConfig {
    pub prompt: String,
    pub prompt_color: Option<u8>,
    pub input_color: Option<u8>,
    pub error_color: Option<u8>,
    pub history_key: char,
    pub menu_key: char,
    pub history_style: HistoryStyle,
    pub menu_style: MenuStyle,
}

/// What a session ends with.
#[derive(Clone, Debug, PartialEq, Eq)]
pub enum SessionResult {
    Cancelled,
    Command(String),
}

/// One drawing of the request line.
#[derive(Clone, Debug, PartialEq, Eq)]
pub struct RenderFrame {
    pub prefix: String,
    pub prefix_color: Option<u8>,
    pub input: String,
    /// Number of characters of `input` before the cursor.
    pub cursor: usize,
    pub input_color: Option<u8>,
    pub error: Option<String>,
    pub error_color: Option<u8>,
}

/// What the caller reports back after doing what the session asked.
#[derive(Debug)]
pub enum SessionInput {
    /// A key or paste read after drawing [`Session::frame`].
    Event(TerminalEvent),
    /// The prompt picked from history, if any.
    HistoryChoice(Option<String>),
    /// The command menu entry picked, if any.
    MenuChoice(Option<usize>),
    /// The configured providers.
    Providers(Vec<String>),
    /// The active `provider/model`.
    CurrentModel(String),
    /// The provider picked, if any.
    ProviderChoice(Option<usize>),
    /// The models of the chosen provider.
    Models(Vec<String>),
    /// The model picked, if any.
    ModelChoice(Option<usize>),
    /// The chosen model is now the active one.
    ModelApplied,
    /// The provider's command, or the message of its failure.
    Suggestion(Result<String, String>),
    /// The text that completion inserts at the cursor, if any.
    Completion(Option<String>),
    /// The text from the external editor, or the message of its failure.
    Edited(Result<String, String>),
}

/// What the session asks the caller to do next.
#[derive(Clone, Debug, PartialEq, Eq)]
pub enum SessionAction {
    /// Draw [`Session::frame`], then read a key.
    ReadEvent,
    /// Pick a prompt from the history.
    SelectHistory,
    /// Pick a command menu entry; draw [`Session::redraw_frame`] first when `redraw`.
    SelectMenu { redraw: bool },
    /// List the configured providers.
    ListProviders,
    /// Look up the active `provider/model`.
    CurrentModel,
    /// Pick one of `providers`, starting at `default`.
    SelectProvider { providers: Vec<String>, default: usize },
    /// List the models of `provider`.
    ListModels { provider: String },
    /// Pick one of `models`, starting at `default`.
    SelectModel { models: Vec<String>, default: usize },
    /// Make `selection` (`provider/model`) the active model.
    ApplyModel { selection: String },
    /// Request a command for `request`.
    Suggest { request: String },
    /// Complete the word before byte offset `cursor` of `text`.
    Complete { text: String, cursor: usize },
    /// Open `text` in the external editor.
    EditExternally { text: String },
    /// The session is over.
    Finish(SessionResult),
}

/// Abstract form of [`SessionAction`].
pub enum ActionView {
    ReadEvent,
    SelectHistory,
    SelectMenu { redraw: bool },
    ListProviders,
    CurrentModel,
    SelectProvider { providers: Seq<Seq<char>>, default: int },
    ListModels { provider: Seq<char> },
    SelectModel { models: Seq<Seq<char>>, default: int },
    ApplyModel { selection: Seq<char> },
    Suggest { request: Seq<char> },
    Complete { text: Seq<char>, cursor: int },
    EditExternally { text: Seq<char> },
    Cancelled,
    Command(Seq<char>),
}

impl View for SessionAction {
    type V = ActionView;

    open spec fn view(&self) -> ActionView {
        match self {
            SessionAction::ReadEvent => ActionView::ReadEvent,
            SessionAction::SelectHistory => ActionView::SelectHistory,
            SessionAction::SelectMenu { redraw } => ActionView::SelectMenu { redraw: *redraw },
            SessionAction::ListProviders => ActionView::ListProviders,
            SessionAction::CurrentModel => ActionView::CurrentModel,
            SessionAction::SelectProvider { providers, default } => ActionView::SelectProvider {
                providers: strs(providers@),
                default: *default as int,
            },
            SessionAction::ListModels { provider } => ActionView::ListModels { provider: provider@ },
            SessionAction::SelectModel { models, default } => ActionView::SelectModel {
                models: strs(models@),
                default: *default as int,
            },
            SessionAction::ApplyModel { selection } => ActionView::ApplyModel {
                selection: selection@,
            },
            SessionAction::Suggest { request } => ActionView::Suggest { request: request@ },
            SessionAction::Complete { text, cursor } => ActionView::Complete {
                text: text@,
                cursor: *cursor as int,
            },
            SessionAction::EditExternally { text } => ActionView::EditExternally { text: text@ },
            SessionAction::Finish(SessionResult::Cancelled) => ActionView::Cancelled,
            SessionAction::Finish(SessionResult::Command(c)) => ActionView::Command(c@),
        }
    }
}

/// What the session waits for.
#[derive(Clone, Debug)]
enum Phase {
    Editing,
    History,
    Menu,
    Providers,
    CurrentModel(Vec<String>),
    ProviderChoice(Vec<String>, String),
    Models(String, String),
    ModelChoice(String, Vec<String>),
    Applying,
    Requesting,
    /// Searching the history for `query`; the match shown, if any.
    Search(String, Option<usize>),
    Completing,
    ExternalEdit,
    Finished,
}

/// Abstract form of the session's phase.
pub enum PhaseView {
    Editing,
    History,
    Menu,
    Providers,
    CurrentModel { providers: Seq<Seq<char>> },
    ProviderChoice { providers: Seq<Seq<char>>, current: Seq<char> },
    Models { provider: Seq<char>, current: Seq<char> },
    ModelChoice { provider: Seq<char>, models: Seq<Seq<char>> },
    Applying,
    Requesting,
    Search { query: Seq<char>, found: Option<int> },
    Completing,
    ExternalEdit,
    Finished,
}

/// Abstract state of a session.
pub struct SessionView {
    pub prompt: Seq<char>,
    pub prompt_color: Option<u8>,
    pub input_color: Option<u8>,
    pub error_color: Option<u8>,
    pub history_key: char,
    pub menu_key: char,
    pub history_style: HistoryStyle,
    pub menu_style: MenuStyle,
    pub request: InputView,
    pub draft: InputView,
    pub history_index: int,
    pub error: Option<Seq<char>>,
    pub history: Seq<Seq<char>>,
    pub phase: PhaseView,
    /// Text and cursor before each change that undo can take back, the
    /// latest last.
    pub undo: Seq<(Seq<char>, int)>,
    /// Text and cursor of each change taken back, the latest last.
    pub redo: Seq<(Seq<char>, int)>,
}

pub open spec fn opt_str(o: Option<String>) -> Option<Seq<char>> {
    match o {
        Some(s) => Some(s@),
        None => None,
    }
}

/// `text` as the whole request, cursor after it, keeping the kill buffer.
pub open spec fn replaced(v: InputView, text: Seq<char>) -> InputView {
    (InputView { text: Seq::empty(), cursor: 0, killed: v.killed }).inserted(text)
}

/// Index of the provider that `current` (`provider/model`) names, else 0.
pub open spec fn provider_default(providers: Seq<Seq<char>>, current: Seq<char>) -> int {
    match split_once(current, '/') {
        Some((p, _)) => match position(providers, p) {
            Some(i) => i,
            None => 0,
        },
        None => 0,
    }
}

/// Index of the model that `current` names when it names `provider`, else 0.
pub open spec fn model_default(provider: Seq<char>, models: Seq<Seq<char>>, current: Seq<char>) -> int {
    match split_once(current, '/') {
        Some((p, m)) => if p == provider {
            match position(models, m) {
                Some(i) => i,
                None => 0,
            }
        } else {
            0
        },
        None => 0,
    }
}

/// How many changes undo can take back.
pub const UNDO_LIMIT: usize = 1000;

/// `steps` with `step` added last, the oldest dropped beyond the limit.
pub open spec fn pushed_step(steps: Seq<(Seq<char>, int)>, step: (Seq<char>, int)) -> Seq<(Seq<char>, int)> {
    let s = steps.push(step);
    if s.len() > UNDO_LIMIT {
        s.drop_first()
    } else {
        s
    }
}

/// Every recorded cursor lies within its text.
pub open spec fn steps_wf(steps: Seq<(Seq<char>, int)>) -> bool {
    forall|i: int| 0 <= i < steps.len() ==> 0 <= #[trigger] steps[i].1 <= steps[i].0.len()
}

/// The latest history entry at or before `i` that holds `query`
/// (case-sensitive).
pub open spec fn matching(history: Seq<Seq<char>>, query: Seq<char>, i: int) -> Option<int>
    decreases i + 1,
{
    if i < 0 || i >= history.len() {
        None
    } else if has_part(history[i], query) {
        Some(i)
    } else {
        matching(history, query, i - 1)
    }
}

/// The newest entry that holds `query`.
pub open spec fn newest_match(history: Seq<Seq<char>>, query: Seq<char>) -> Option<int> {
    matching(history, query, history.len() - 1)
}

/// The next older entry than `found` that holds `query`; past the oldest,
/// the newest again.
pub open spec fn older_match(history: Seq<Seq<char>>, query: Seq<char>, found: Option<int>) -> Option<int> {
    match found {
        Some(i) => match matching(history, query, i - 1) {
            Some(j) => Some(j),
            None => newest_match(history, query),
        },
        None => newest_match(history, query),
    }
}

/// The prompt shown while searching the history for `query`.
pub open spec fn search_prompt(query: Seq<char>) -> Seq<char> {
    "search `"@ + query + "`: "@
}

pub const NO_PROVIDERS: &'static str = "no providers are configured";

pub const NO_MODELS: &'static str = "selected provider has no models configured";

impl SessionView {
    pub open spec fn wf(self) -> bool {
        &&& self.request.wf()
        &&& self.draft.wf()
        &&& 0 <= self.history_index <= self.history.len()
        &&& match self.phase {
            PhaseView::CurrentModel { providers } => providers.len() > 0,
            PhaseView::ProviderChoice { providers, .. } => providers.len() > 1,
            PhaseView::ModelChoice { models, .. } => models.len() > 0,
            PhaseView::Search { found, .. } => match found {
                Some(i) => 0 <= i < self.history.len(),
                None => true,
            },
            _ => true,
        }
        &&& steps_wf(self.undo)
        &&& steps_wf(self.redo)
    }

    /// The session with its request set to `r`. A change of the text is
    /// recorded for undo (at most [`UNDO_LIMIT`] of them) and forgets what
    /// was undone; cursor movement is not recorded.
    pub open spec fn with_request(self, r: InputView) -> SessionView {
        if r.text == self.request.text {
            SessionView { request: r, ..self }
        } else {
            SessionView {
                request: r,
                undo: pushed_step(self.undo, (self.request.text, self.request.cursor)),
                redo: Seq::empty(),
                ..self
            }
        }
    }

    /// The last recorded change taken back: its text and cursor return, and
    /// the current ones can be redone.
    pub open spec fn undone(self) -> SessionView {
        if self.undo.len() == 0 {
            self
        } else {
            let (t, c) = self.undo.last();
            SessionView {
                request: InputView { text: t, cursor: c, killed: self.request.killed },
                undo: self.undo.drop_last(),
                redo: pushed_step(self.redo, (self.request.text, self.request.cursor)),
                history_index: self.history.len() as int,
                ..self
            }
        }
    }

    /// The last change taken back made again.
    pub open spec fn redone(self) -> SessionView {
        if self.redo.len() == 0 {
            self
        } else {
            let (t, c) = self.redo.last();
            SessionView {
                request: InputView { text: t, cursor: c, killed: self.request.killed },
                redo: self.redo.drop_last(),
                undo: pushed_step(self.undo, (self.request.text, self.request.cursor)),
                history_index: self.history.len() as int,
                ..self
            }
        }
    }

    /// What the request line shows: the prompt, the text and the cursor;
    /// while searching, the search prompt and the match.
    pub open spec fn shown(self) -> (Seq<char>, Seq<char>, int) {
        match self.phase {
            PhaseView::Search { query, found } => {
                let t = match found {
                    Some(i) => self.history[i],
                    None => Seq::empty(),
                };
                (search_prompt(query), t, t.len() as int)
            },
            _ => (self.prompt, self.request.text, self.request.cursor),
        }
    }

    /// The effect of one key while searching the history.
    pub open spec fn search_step(self, query: Seq<char>, found: Option<int>, e: TerminalEvent) -> (
        SessionView,
        ActionView,
    ) {
        match e {
            TerminalEvent::Character(c) => {
                let q = query.push(c);
                (
                    SessionView {
                        phase: PhaseView::Search { query: q, found: newest_match(self.history, q) },
                        ..self
                    },
                    ActionView::ReadEvent,
                )
            },
            TerminalEvent::Backspace => {
                let q = if query.len() > 0 {
                    query.drop_last()
                } else {
                    query
                };
                (
                    SessionView {
                        phase: PhaseView::Search { query: q, found: newest_match(self.history, q) },
                        ..self
                    },
                    ActionView::ReadEvent,
                )
            },
            TerminalEvent::Search => (
                SessionView {
                    phase: PhaseView::Search {
                        query: query,
                        found: older_match(self.history, query, found),
                    },
                    ..self
                },
                ActionView::ReadEvent,
            ),
            TerminalEvent::Enter => match found {
                Some(i) => SessionView {
                    history_index: self.history.len() as int,
                    ..self
                }.with_request(replaced(self.request, self.history[i])).edit_loop(),
                None => self.edit_loop(),
            },
            TerminalEvent::Escape | TerminalEvent::Interrupt => self.edit_loop(),
            _ => (self, ActionView::ReadEvent),
        }
    }

    /// Back to the request line.
    pub open spec fn edit_loop(self) -> (SessionView, ActionView) {
        (SessionView { phase: PhaseView::Editing, ..self }, ActionView::ReadEvent)
    }

    /// The effect of one key on the request line.
    pub open spec fn on_event(self, e: TerminalEvent) -> (SessionView, ActionView) {
        let n = self.history.len() as int;
        let empty = self.request.text.len() == 0;
        match e {
            TerminalEvent::Character(c) if empty && c == self.history_key => (
                SessionView { phase: PhaseView::History, ..self },
                ActionView::SelectHistory,
            ),
            TerminalEvent::Character(c) if empty && c == self.menu_key => (
                SessionView { phase: PhaseView::Menu, ..self },
                ActionView::SelectMenu { redraw: false },
            ),
            TerminalEvent::Up if n > 0 => {
                let draft = if self.history_index == n {
                    self.request
                } else {
                    self.draft
                };
                let i = if self.history_index > 0 {
                    self.history_index - 1
                } else {
                    0
                };
                SessionView { draft: draft, history_index: i, ..self }.with_request(
                    replaced(self.request, self.history[i]),
                ).edit_loop()
            },
            TerminalEvent::Down if self.history_index < n => {
                let i = self.history_index + 1;
                let request = if i < n {
                    replaced(self.request, self.history[i])
                } else {
                    InputView { text: self.draft.text, cursor: self.draft.cursor, killed: self.request.killed }
                };
                SessionView { history_index: i, ..self }.with_request(request).edit_loop()
            },
            TerminalEvent::Up | TerminalEvent::Down => self.edit_loop(),
            TerminalEvent::Escape if !empty => SessionView { history_index: n, ..self }.with_request(
                replaced(self.request, Seq::empty()),
            ).edit_loop(),
            TerminalEvent::Escape | TerminalEvent::Interrupt => (
                SessionView { phase: PhaseView::Finished, ..self },
                ActionView::Cancelled,
            ),
            TerminalEvent::Enter => {
                let t = trimmed(self.request.text);
                if t.len() == 0 {
                    (SessionView { phase: PhaseView::Finished, ..self }, ActionView::Cancelled)
                } else {
                    let h = if self.history.contains(t) {
                        self.history
                    } else {
                        self.history.push(t)
                    };
                    (
                        SessionView {
                            history: h,
                            history_index: h.len() as int,
                            phase: PhaseView::Requesting,
                            ..self
                        },
                        ActionView::Suggest { request: t },
                    )
                }
            },
            TerminalEvent::Undo => self.undone().edit_loop(),
            TerminalEvent::Redo => self.redone().edit_loop(),
            TerminalEvent::Search => (
                SessionView {
                    phase: PhaseView::Search {
                        query: Seq::empty(),
                        found: newest_match(self.history, Seq::empty()),
                    },
                    ..self
                },
                ActionView::ReadEvent,
            ),
            TerminalEvent::EditExternally => (
                SessionView { phase: PhaseView::ExternalEdit, ..self },
                ActionView::EditExternally { text: self.request.text },
            ),
            TerminalEvent::Complete => {
                let b = byte_len(self.request.text.take(self.request.cursor));
                if b <= usize::MAX {
                    (
                        SessionView { phase: PhaseView::Completing, ..self },
                        ActionView::Complete { text: self.request.text, cursor: b as int },
                    )
                } else {
                    self.edit_loop()
                }
            },
            _ => SessionView {
                history_index: if is_text_edit(e) {
                    n
                } else {
                    self.history_index
                },
                ..self
            }.with_request(self.request.edited(e)).edit_loop(),
        }
    }

    /// Whether the session waits for `i`.
    pub open spec fn accepts(self, i: SessionInput) -> bool {
        match (self.phase, i) {
            (PhaseView::Editing, SessionInput::Event(_)) => true,
            (PhaseView::History, SessionInput::HistoryChoice(_)) => true,
            (PhaseView::Menu, SessionInput::MenuChoice(o)) => o is None || o == Some(0usize),
            (PhaseView::Providers, SessionInput::Providers(_)) => true,
            (PhaseView::CurrentModel { .. }, SessionInput::CurrentModel(_)) => true,
            (PhaseView::ProviderChoice { providers, .. }, SessionInput::ProviderChoice(o)) => match o {
                Some(k) => k < providers.len(),
                None => true,
            },
            (PhaseView::Models { .. }, SessionInput::Models(_)) => true,
            (PhaseView::ModelChoice { models, .. }, SessionInput::ModelChoice(o)) => match o {
                Some(k) => k < models.len(),
                None => true,
            },
            (PhaseView::Applying, SessionInput::ModelApplied) => true,
            (PhaseView::Requesting, SessionInput::Suggestion(_)) => true,
            (PhaseView::Search { .. }, SessionInput::Event(_)) => true,
            (PhaseView::Completing, SessionInput::Completion(_)) => true,
            (PhaseView::ExternalEdit, SessionInput::Edited(_)) => true,
            _ => false,
        }
    }

    /// The session after input `i`, with what it asks next.
    pub open spec fn next(self, i: SessionInput) -> (SessionView, ActionView) {
        match (self.phase, i) {
            (PhaseView::Editing, SessionInput::Event(e)) => self.on_event(e),
            (PhaseView::History, SessionInput::HistoryChoice(sel)) => match sel {
                Some(t) => SessionView { history_index: self.history.len() as int, ..self }.with_request(
                    replaced(self.request, t@),
                ).edit_loop(),
                None => self.edit_loop(),
            },
            (PhaseView::Menu, SessionInput::MenuChoice(o)) => match o {
                Some(_) => (SessionView { phase: PhaseView::Providers, ..self }, ActionView::ListProviders),
                None => self.edit_loop(),
            },
            (PhaseView::Providers, SessionInput::Providers(ps)) => if ps@.len() == 0 {
                SessionView { error: Some(NO_PROVIDERS@), ..self }.edit_loop()
            } else {
                (
                    SessionView { phase: PhaseView::CurrentModel { providers: strs(ps@) }, ..self },
                    ActionView::CurrentModel,
                )
            },
            (PhaseView::CurrentModel { providers }, SessionInput::CurrentModel(cur)) => if providers.len()
                == 1 {
                (
                    SessionView { phase: PhaseView::Models { provider: providers[0], current: cur@ }, ..self },
                    ActionView::ListModels { provider: providers[0] },
                )
            } else {
                (
                    SessionView {
                        phase: PhaseView::ProviderChoice { providers: providers, current: cur@ },
                        ..self
                    },
                    ActionView::SelectProvider {
                        providers: providers,
                        default: provider_default(providers, cur@),
                    },
                )
            },
            (PhaseView::ProviderChoice { providers, current }, SessionInput::ProviderChoice(o)) => match o {
                Some(k) => (
                    SessionView {
                        phase: PhaseView::Models { provider: providers[k as int], current: current },
                        ..self
                    },
                    ActionView::ListModels { provider: providers[k as int] },
                ),
                None => (SessionView { phase: PhaseView::Menu, ..self }, ActionView::SelectMenu { redraw: true }),
            },
            (PhaseView::Models { provider, current }, SessionInput::Models(ms)) => if ms@.len() == 0 {
                SessionView { error: Some(NO_MODELS@), ..self }.edit_loop()
            } else {
                (
                    SessionView {
                        phase: PhaseView::ModelChoice { provider: provider, models: strs(ms@) },
                        ..self
                    },
                    ActionView::SelectModel {
                        models: strs(ms@),
                        default: model_default(provider, strs(ms@), current),
                    },
                )
            },
            (PhaseView::ModelChoice { provider, models }, SessionInput::ModelChoice(o)) => match o {
                Some(k) => (
                    SessionView { phase: PhaseView::Applying, ..self },
                    ActionView::ApplyModel { selection: provider + seq!['/'] + models[k as int] },
                ),
                None => (SessionView { phase: PhaseView::Menu, ..self }, ActionView::SelectMenu { redraw: true }),
            },
            (PhaseView::Applying, SessionInput::ModelApplied) => self.edit_loop(),
            (PhaseView::Requesting, SessionInput::Suggestion(r)) => match r {
                Ok(c) => (SessionView { phase: PhaseView::Finished, ..self }, ActionView::Command(c@)),
                Err(m) => SessionView { error: Some(m@), ..self }.edit_loop(),
            },
            (PhaseView::Search { query, found }, SessionInput::Event(e)) => self.search_step(query, found, e),
            (PhaseView::Completing, SessionInput::Completion(o)) => match o {
                Some(t) => SessionView { history_index: self.history.len() as int, ..self }.with_request(
                    self.request.inserted(t@),
                ).edit_loop(),
                None => self.edit_loop(),
            },
            (PhaseView::ExternalEdit, SessionInput::Edited(r)) => match r {
                Ok(t) => SessionView { history_index: self.history.len() as int, ..self }.with_request(
                    replaced(self.request, t@),
                ).edit_loop(),
                Err(m) => SessionView { error: Some(m@), ..self }.edit_loop(),
            },
            _ => (self, ActionView::Cancelled),
        }
    }
}

/// A request session over a prompt history.
pub struct Session {
    config: SessionConfig,
    request: InputBuffer,
    draft: InputBuffer,
    history_index: usize,
    error: Option<String>,
    history: Vec<String>,
    phase: Phase,
    undo: Vec<InputBuffer>,
    redo: Vec<InputBuffer>,
}

/// The text and cursor of each recorded buffer.
pub open spec fn steps_of(v: Seq<InputBuffer>) -> Seq<(Seq<char>, int)> {
    v.map_values(|b: InputBuffer| (b@.text, b@.cursor))
}

spec fn phase_view(p: Phase) -> PhaseView {
    match p {
        Phase::Editing => PhaseView::Editing,
        Phase::History => PhaseView::History,
        Phase::Menu => PhaseView::Menu,
        Phase::Providers => PhaseView::Providers,
        Phase::CurrentModel(ps) => PhaseView::CurrentModel { providers: strs(ps@) },
        Phase::ProviderChoice(ps, c) => PhaseView::ProviderChoice { providers: strs(ps@), current: c@ },
        Phase::Models(p, c) => PhaseView::Models { provider: p@, current: c@ },
        Phase::ModelChoice(p, ms) => PhaseView::ModelChoice { provider: p@, models: strs(ms@) },
        Phase::Applying => PhaseView::Applying,
        Phase::Requesting => PhaseView::Requesting,
        Phase::Search(q, f) => PhaseView::Search {
            query: q@,
            found: match f {
                Some(i) => Some(i as int),
                None => None,
            },
        },
        Phase::Completing => PhaseView::Completing,
        Phase::ExternalEdit => PhaseView::ExternalEdit,
        Phase::Finished => PhaseView::Finished,
    }
}

impl View for Session {
    type V = SessionView;

    closed spec fn view(&self) -> SessionView {
        SessionView {
            prompt: self.config.prompt@,
            prompt_color: self.config.prompt_color,
            input_color: self.config.input_color,
            error_color: self.config.error_color,
            history_key: self.config.history_key,
            menu_key: self.config.menu_key,
            history_style: self.config.history_style,
            menu_style: self.config.menu_style,
            request: self.request.model(),
            draft: self.draft.model(),
            history_index: self.history_index as int,
            error: opt_str(self.error),
            history: strs(self.history@),
            phase: phase_view(self.phase),
            undo: steps_of(self.undo@),
            redo: steps_of(self.redo@),
        }
    }
}

/// Index of the provider that `current` names, else 0.
pub fn provider_default_index(providers: &Vec<String>, current: &str) -> (r: usize)
    ensures
        r == provider_default(strs(providers@), current@),
{
    let cur = chars_of(current);
    match split_once_chars(&cur, '/') {
        Some((p, _)) => {
            let ps = string_of(&p);
            match position_of(providers, ps.as_str()) {
                Some(i) => i,
                None => 0,
            }
        },
        None => 0,
    }
}

/// Index of the model that `current` names when it names `provider`, else 0.
pub fn model_default_index(provider: &str, models: &Vec<String>, current: &str) -> (r: usize)
    ensures
        r == model_default(provider@, strs(models@), current@),
{
    let cur = chars_of(current);
    match split_once_chars(&cur, '/') {
        Some((p, m)) => {
            let prov = chars_of(provider);
            if crate::text::chars_eq(&p, &prov) {
                let ms = string_of(&m);
                match position_of(models, ms.as_str()) {
                    Some(i) => i,
                    None => 0,
                }
            } else {
                0
            }
        },
        None => 0,
    }
}

/// Records `b` as the latest step, dropping the oldest beyond the limit.
fn push_step(steps: &mut Vec<InputBuffer>, b: InputBuffer)
    requires
        steps_wf(steps_of(old(steps)@)),
        b@.wf(),
    ensures
        steps_of(final(steps)@) == pushed_step(steps_of(old(steps)@), (b@.text, b@.cursor)),
        steps_wf(steps_of(final(steps)@)),
{
    let ghost before = steps_of(steps@);
    let ghost step = (b@.text, b@.cursor);
    steps.push(b);
    assert(steps_of(steps@) =~= before.push(step));
    if steps.len() > UNDO_LIMIT {
        let _ = steps.remove(0);
        assert(steps_of(steps@) =~= before.push(step).drop_first());
    }
}

/// A match lies within the history.
proof fn lemma_matching_bounds(history: Seq<Seq<char>>, query: Seq<char>, i: int)
    ensures
        matching(history, query, i) matches Some(j) ==> 0 <= j <= i && j < history.len(),
    decreases i + 1,
{
    if 0 <= i < history.len() && !has_part(history[i], query) {
        lemma_matching_bounds(history, query, i - 1);
    }
}

/// The latest entry before position `from` that holds `query`.
fn find_match(history: &Vec<String>, query: &str, from: usize) -> (r: Option<usize>)
    requires
        from <= history@.len(),
    ensures
        match r {
            Some(i) => matching(strs(history@), query@, from - 1) == Some(i as int) && i < history@.len(),
            None => matching(strs(history@), query@, from - 1) is None,
        },
{
    proof {
        lemma_strs(history@);
    }
    let mut i = from;
    while i > 0
        invariant
            i <= from <= history@.len(),
            strs(history@).len() == history@.len(),
            forall|j: int| 0 <= j < history@.len() ==> #[trigger] strs(history@)[j] == history@[j]@,
            matching(strs(history@), query@, from - 1) == matching(strs(history@), query@, i - 1),
        decreases i,
    {
        let entry = chars_of(history[i - 1].as_str());
        if contains_part(&entry, query) {
            return Some(i - 1);
        }
        i = i - 1;
    }
    None
}

/// The views of a vector of strings, element by element.
pub proof fn lemma_strs(v: Seq<String>)
    ensures
        strs(v).len() == v.len(),
        forall|i: int| 0 <= i < v.len() ==> #[trigger] strs(v)[i] == v[i]@,
{
}

fn strings_copy(v: &Vec<String>) -> (r: Vec<String>)
    ensures
        strs(r@) == strs(v@),
{
    let mut r: Vec<String> = Vec::new();
    let mut i: usize = 0;
    while i < v.len()
        invariant
            i <= v@.len(),
            r@.len() == i,
            strs(r@) == strs(v@).take(i as int),
        decreases v@.len() - i,
    {
        let c = v[i].clone();
        r.push(c);
        proof {
            lemma_strs(r@);
            lemma_strs(v@);
        }
        i = i + 1;
        assert(strs(r@) =~= strs(v@).take(i as int));
    }
    assert(strs(v@).take(v@.len() as int) =~= strs(v@));
    r
}

impl Session {
    /// A session that starts with an empty request; `history` holds the
    /// earlier prompts, oldest first.
    pub fn new(config: SessionConfig, history: Vec<String>) -> (r: Session)
        ensures
            r@.wf(),
            r@.request == (InputView { text: Seq::empty(), cursor: 0, killed: Seq::empty() }),
            r@.history == strs(history@),
            r@.history_index == history@.len(),
            r@.error is None,
            r@.phase == PhaseView::Editing,
            r@.undo.len() == 0,
            r@.redo.len() == 0,
            r@.history_key == config.history_key,
            r@.menu_key == config.menu_key,
            r@.prompt == config.prompt@,
            r@.prompt_color == config.prompt_color,
            r@.input_color == config.input_color,
            r@.error_color == config.error_color,
            r@.history_style == config.history_style,
            r@.menu_style == config.menu_style,
    {
        let n = history.len();
        Session {
            config,
            request: InputBuffer::new(),
            draft: InputBuffer::new(),
            history_index: n,
            error: None,
            history,
            phase: Phase::Editing,
            undo: Vec::new(),
            redo: Vec::new(),
        }
    }

    /// The prompts, oldest first, with the submitted ones added.
    pub fn history(&self) -> (r: &Vec<String>)
        ensures
            strs(r@) == self@.history,
    {
        &self.history
    }

    /// The request being edited.
    pub fn request(&self) -> (r: &InputBuffer)
        ensures
            r@ == self@.request,
    {
        &self.request
    }

    /// The settings the session was made with.
    pub fn config(&self) -> (r: &SessionConfig)
        ensures
            r.history_key == self@.history_key,
            r.menu_key == self@.menu_key,
            r.prompt@ == self@.prompt,
            r.prompt_color == self@.prompt_color,
            r.input_color == self@.input_color,
            r.error_color == self@.error_color,
            r.history_style == self@.history_style,
            r.menu_style == self@.menu_style,
    {
        &self.config
    }

    /// The frame to draw before reading a key; it shows the last error once.
    pub fn frame(&mut self) -> (r: RenderFrame)
        requires
            old(self)@.wf(),
        ensures
            r.prefix@ == old(self)@.shown().0,
            r.input@ == old(self)@.shown().1,
            r.cursor == old(self)@.shown().2,
            r.cursor <= r.input@.len(),
            opt_str(r.error) == old(self)@.error,
            final(self)@ == (SessionView { error: None, ..old(self)@ }),
            r.prefix_color == old(self)@.prompt_color,
            r.input_color == old(self)@.input_color,
            r.error_color == old(self)@.error_color,
    {
        let error = self.error.take();
        self.frame_with(error)
    }

    /// The frame to draw before a menu opens again; it shows no error.
    pub fn redraw_frame(&self) -> (r: RenderFrame)
        requires
            self@.wf(),
        ensures
            r.prefix@ == self@.shown().0,
            r.input@ == self@.shown().1,
            r.cursor == self@.shown().2,
            r.cursor <= r.input@.len(),
            r.error is None,
            r.prefix_color == self@.prompt_color,
            r.input_color == self@.input_color,
            r.error_color == self@.error_color,
    {
        self.frame_with(None)
    }

    fn frame_with(&self, error: Option<String>) -> (r: RenderFrame)
        requires
            self@.wf(),
        ensures
            r.prefix@ == self@.shown().0,
            r.input@ == self@.shown().1,
            r.cursor == self@.shown().2,
            r.cursor <= r.input@.len(),
            r.error == error,
            r.prefix_color == self@.prompt_color,
            r.input_color == self@.input_color,
            r.error_color == self@.error_color,
    {
        match &self.phase {
            Phase::Search(query, found) => {
                let head = crate::text::concat_str("search `", query.as_str());
                let prefix = crate::text::concat_str(head.as_str(), "`: ");
                let input = match found {
                    Some(i) => {
                        proof {
                            lemma_strs(self.history@);
                        }
                        self.history[*i].clone()
                    },
                    None => String::new(),
                };
                let cursor = chars_of(input.as_str()).len();
                RenderFrame {
                    prefix,
                    prefix_color: self.config.prompt_color,
                    input,
                    cursor,
                    input_color: self.config.input_color,
                    error,
                    error_color: self.config.error_color,
                }
            },
            _ => RenderFrame {
                prefix: self.config.prompt.clone(),
                prefix_color: self.config.prompt_color,
                input: self.request.text(),
                cursor: self.request.cursor_chars(),
                input_color: self.config.input_color,
                error,
                error_color: self.config.error_color,
            },
        }
    }

    /// Sets the request to `r`, recording a change of text for undo.
    fn set_request(&mut self, r: InputBuffer)
        requires
            old(self)@.wf(),
            r@.wf(),
        ensures
            final(self)@ == old(self)@.with_request(r@),
            final(self)@.wf(),
    {
        if self.request.same_text(&r) {
            self.request = r;
        } else {
            let mut previous = r;
            std::mem::swap(&mut previous, &mut self.request);
            push_step(&mut self.undo, previous);
            self.redo = Vec::new();
            proof {
                assert(steps_of(self.redo@) =~= Seq::<(Seq<char>, int)>::empty());
            }
        }
    }

    /// Takes back the last recorded change.
    fn take_back(&mut self)
        requires
            old(self)@.wf(),
        ensures
            final(self)@ == old(self)@.undone(),
            final(self)@.wf(),
    {
        let ghost before = steps_of(self.undo@);
        match self.undo.pop() {
            None => {
                assert(before.len() == 0);
            },
            Some(step) => {
                proof {
                    assert(steps_of(self.undo@) =~= before.drop_last());
                    assert(before[before.len() - 1] == (step@.text, step@.cursor));
                }
                let current = self.request.duplicate();
                self.request.restore(&step);
                push_step(&mut self.redo, current);
                self.history_index = self.history.len();
            },
        }
    }

    /// Makes again the last change taken back.
    fn make_again(&mut self)
        requires
            old(self)@.wf(),
        ensures
            final(self)@ == old(self)@.redone(),
            final(self)@.wf(),
    {
        let ghost before = steps_of(self.redo@);
        match self.redo.pop() {
            None => {
                assert(before.len() == 0);
            },
            Some(step) => {
                proof {
                    assert(steps_of(self.redo@) =~= before.drop_last());
                    assert(before[before.len() - 1] == (step@.text, step@.cursor));
                }
                let current = self.request.duplicate();
                self.request.restore(&step);
                push_step(&mut self.undo, current);
                self.history_index = self.history.len();
            },
        }
    }

    fn edit_loop(&mut self) -> (r: SessionAction)
        ensures
            final(self)@ == old(self)@.edit_loop().0,
            r@ == old(self)@.edit_loop().1,
    {
        self.phase = Phase::Editing;
        SessionAction::ReadEvent
    }

    fn on_event(&mut self, e: TerminalEvent) -> (r: SessionAction)
        requires
            old(self)@.wf(),
            old(self)@.phase == PhaseView::Editing,
        ensures
            final(self)@ == old(self)@.on_event(e).0,
            r@ == old(self)@.on_event(e).1,
            final(self)@.wf(),
    {
        let n = self.history.len();
        let empty = self.request.is_empty();
        match e {
            TerminalEvent::Character(c) if empty && c == self.config.history_key => {
                self.phase = Phase::History;
                SessionAction::SelectHistory
            },
            TerminalEvent::Character(c) if empty && c == self.config.menu_key => {
                self.phase = Phase::Menu;
                SessionAction::SelectMenu { redraw: false }
            },
            TerminalEvent::Up if n > 0 => {
                if self.history_index == n {
                    self.draft = self.request.duplicate();
                }
                self.history_index = if self.history_index > 0 {
                    self.history_index - 1
                } else {
                    0
                };
                let entry = self.history[self.history_index].clone();
                let mut r = self.request.duplicate();
                r.set(entry.as_str());
                self.set_request(r);
                self.edit_loop()
            },
            TerminalEvent::Down if self.history_index < n => {
                self.history_index = self.history_index + 1;
                let mut r = self.request.duplicate();
                if self.history_index < n {
                    let entry = self.history[self.history_index].clone();
                    r.set(entry.as_str());
                } else {
                    r.restore(&self.draft);
                }
                self.set_request(r);
                self.edit_loop()
            },
            TerminalEvent::Up | TerminalEvent::Down => self.edit_loop(),
            TerminalEvent::Escape if !empty => {
                self.history_index = n;
                let mut r = self.request.duplicate();
                r.set("");
                proof {
                    reveal_strlit("");
                }
                self.set_request(r);
                self.edit_loop()
            },
            TerminalEvent::Escape | TerminalEvent::Interrupt => {
                self.phase = Phase::Finished;
                SessionAction::Finish(SessionResult::Cancelled)
            },
            TerminalEvent::Enter => {
                let text = chars_of(self.request.text().as_str());
                let t = trim_chars(&text);
                if t.len() == 0 {
                    self.phase = Phase::Finished;
                    return SessionAction::Finish(SessionResult::Cancelled);
                }
                let request = string_of(&t);
                if !contains_str(&self.history, request.as_str()) {
                    self.history.push(request.clone());
                    proof {
                        assert(strs(self.history@) =~= strs(old(self).history@).push(t@));
                    }
                }
                self.history_index = self.history.len();
                self.phase = Phase::Requesting;
                SessionAction::Suggest { request }
            },
            TerminalEvent::Undo => {
                self.take_back();
                self.edit_loop()
            },
            TerminalEvent::Redo => {
                self.make_again();
                self.edit_loop()
            },
            TerminalEvent::Search => {
                proof {
                    reveal_strlit("");
                    assert(""@ =~= Seq::<char>::empty());
                }
                let found = find_match(&self.history, "", n);
                self.phase = Phase::Search(String::new(), found);
                SessionAction::ReadEvent
            },
            TerminalEvent::EditExternally => {
                self.phase = Phase::ExternalEdit;
                SessionAction::EditExternally { text: self.request.text() }
            },
            TerminalEvent::Complete => match self.request.checked_cursor() {
                Some(b) => {
                    self.phase = Phase::Completing;
                    SessionAction::Complete { text: self.request.text(), cursor: b }
                },
                None => self.edit_loop(),
            },
            e => {
                let mut r = self.request.duplicate();
                if r.edit(e) {
                    self.history_index = n;
                }
                self.set_request(r);
                self.edit_loop()
            },
        }
    }

    /// One key while searching the history.
    fn search_event(&mut self, query: String, found: Option<usize>, e: TerminalEvent) -> (r: SessionAction)
        requires
            old(self)@.wf(),
            found matches Some(i) ==> i < old(self)@.history.len(),
        ensures
            final(self)@ == (SessionView {
                phase: PhaseView::Search {
                    query: query@,
                    found: match found {
                        Some(i) => Some(i as int),
                        None => None,
                    },
                },
                ..old(self)@
            }).search_step(
                query@,
                match found {
                    Some(i) => Some(i as int),
                    None => None,
                },
                e,
            ).0,
            r@ == (SessionView {
                phase: PhaseView::Search {
                    query: query@,
                    found: match found {
                        Some(i) => Some(i as int),
                        None => None,
                    },
                },
                ..old(self)@
            }).search_step(
                query@,
                match found {
                    Some(i) => Some(i as int),
                    None => None,
                },
                e,
            ).1,
            final(self)@.wf(),
    {
        let n = self.history.len();
        proof {
            lemma_strs(self.history@);
        }
        match e {
            TerminalEvent::Character(c) => {
                let mut q = query;
                crate::text::push_char(&mut q, c);
                let f = find_match(&self.history, q.as_str(), n);
                self.phase = Phase::Search(q, f);
                SessionAction::ReadEvent
            },
            TerminalEvent::Backspace => {
                let qc = chars_of(query.as_str());
                let q = if qc.len() > 0 {
                    let mut shorter: Vec<char> = Vec::new();
                    let mut k: usize = 0;
                    while k < qc.len() - 1
                        invariant
                            qc@.len() > 0,
                            k + 1 <= qc@.len(),
                            shorter@ == qc@.take(k as int),
                        decreases qc@.len() - k,
                    {
                        shorter.push(qc[k]);
                        k = k + 1;
                        assert(shorter@ =~= qc@.take(k as int));
                    }
                    assert(shorter@ =~= qc@.drop_last());
                    string_of(&shorter)
                } else {
                    query
                };
                let f = find_match(&self.history, q.as_str(), n);
                self.phase = Phase::Search(q, f);
                SessionAction::ReadEvent
            },
            TerminalEvent::Search => {
                let f = match found {
                    Some(i) => match find_match(&self.history, query.as_str(), i) {
                        Some(j) => Some(j),
                        None => find_match(&self.history, query.as_str(), n),
                    },
                    None => find_match(&self.history, query.as_str(), n),
                };
                self.phase = Phase::Search(query, f);
                SessionAction::ReadEvent
            },
            TerminalEvent::Enter => match found {
                Some(i) => {
                    let entry = self.history[i].clone();
                    let mut r = self.request.duplicate();
                    r.set(entry.as_str());
                    self.history_index = n;
                    self.phase = Phase::Editing;
                    self.set_request(r);
                    self.edit_loop()
                },
                None => self.edit_loop(),
            },
            TerminalEvent::Escape | TerminalEvent::Interrupt => self.edit_loop(),
            _ => {
                self.phase = Phase::Search(query, found);
                SessionAction::ReadEvent
            },
        }
    }

    /// Starts the session: draw the first frame and read a key.
    pub fn start(&self) -> (r: SessionAction)
        ensures
            r@ == ActionView::ReadEvent,
    {
        SessionAction::ReadEvent
    }

    /// Feeds back the outcome of the last action and returns the next one.
    pub fn resume(&mut self, input: SessionInput) -> (r: SessionAction)
        requires
            old(self)@.wf(),
            old(self)@.accepts(input),
        ensures
            final(self)@ == old(self)@.next(input).0,
            r@ == old(self)@.next(input).1,
            final(self)@.wf(),
    {
        let mut phase = Phase::Finished;
        std::mem::swap(&mut phase, &mut self.phase);
        let r = match (phase, input) {
            (Phase::Editing, SessionInput::Event(e)) => {
                self.phase = Phase::Editing;
                self.on_event(e)
            },
            (Phase::History, SessionInput::HistoryChoice(sel)) => {
                match sel {
                    Some(t) => {
                        let mut r = self.request.duplicate();
                        r.set(t.as_str());
                        self.history_index = self.history.len();
                        self.set_request(r);
                        self.edit_loop()
                    },
                    None => self.edit_loop(),
                }
            },
            (Phase::Menu, SessionInput::MenuChoice(o)) => {
                match o {
                    Some(_) => {
                        self.phase = Phase::Providers;
                        SessionAction::ListProviders
                    },
                    None => self.edit_loop(),
                }
            },
            (Phase::Providers, SessionInput::Providers(ps)) => {
                proof {
                    lemma_strs(ps@);
                }
                if ps.len() == 0 {
                    self.error = Some(NO_PROVIDERS.to_owned());
                    self.edit_loop()
                } else {
                    self.phase = Phase::CurrentModel(ps);
                    SessionAction::CurrentModel
                }
            },
            (Phase::CurrentModel(ps), SessionInput::CurrentModel(cur)) => {
                proof {
                    lemma_strs(ps@);
                }
                if ps.len() == 1 {
                    let p = ps[0].clone();
                    self.phase = Phase::Models(p.clone(), cur);
                    SessionAction::ListModels { provider: p }
                } else {
                    let default = provider_default_index(&ps, cur.as_str());
                    let shown = strings_copy(&ps);
                    self.phase = Phase::ProviderChoice(ps, cur);
                    SessionAction::SelectProvider { providers: shown, default }
                }
            },
            (Phase::ProviderChoice(ps, cur), SessionInput::ProviderChoice(o)) => {
                match o {
                    Some(k) => {
                        proof {
                            lemma_strs(ps@);
                        }
                        let p = ps[k].clone();
                        self.phase = Phase::Models(p.clone(), cur);
                        SessionAction::ListModels { provider: p }
                    },
                    None => {
                        self.phase = Phase::Menu;
                        SessionAction::SelectMenu { redraw: true }
                    },
                }
            },
            (Phase::Models(p, cur), SessionInput::Models(ms)) => {
                proof {
                    lemma_strs(ms@);
                }
                if ms.len() == 0 {
                    self.error = Some(NO_MODELS.to_owned());
                    self.edit_loop()
                } else {
                    let default = model_default_index(p.as_str(), &ms, cur.as_str());
                    let shown = strings_copy(&ms);
                    self.phase = Phase::ModelChoice(p, ms);
                    SessionAction::SelectModel { models: shown, default }
                }
            },
            (Phase::ModelChoice(p, ms), SessionInput::ModelChoice(o)) => {
                match o {
                    Some(k) => {
                        proof {
                            lemma_strs(ms@);
                        }
                        let mut selection = p.clone();
                        crate::text::push_char(&mut selection, '/');
                        let model = ms[k].clone();
                        let sel = crate::text::concat_str(selection.as_str(), model.as_str());
                        assert(sel@ =~= p@ + seq!['/'] + strs(ms@)[k as int]);
                        self.phase = Phase::Applying;
                        SessionAction::ApplyModel { selection: sel }
                    },
                    None => {
                        self.phase = Phase::Menu;
                        SessionAction::SelectMenu { redraw: true }
                    },
                }
            },
            (Phase::Applying, SessionInput::ModelApplied) => self.edit_loop(),
            (Phase::Search(query, found), SessionInput::Event(e)) => self.search_event(query, found, e),
            (Phase::Completing, SessionInput::Completion(o)) => match o {
                Some(t) => {
                    let mut r = self.request.duplicate();
                    r.insert(t.as_str());
                    self.history_index = self.history.len();
                    self.set_request(r);
                    self.edit_loop()
                },
                None => self.edit_loop(),
            },
            (Phase::ExternalEdit, SessionInput::Edited(outcome)) => match outcome {
                Ok(t) => {
                    let mut r = self.request.duplicate();
                    r.set(t.as_str());
                    self.history_index = self.history.len();
                    self.set_request(r);
                    self.edit_loop()
                },
                Err(m) => {
                    self.error = Some(m);
                    self.edit_loop()
                },
            },
            (Phase::Requesting, SessionInput::Suggestion(r)) => {
                match r {
                    Ok(c) => {
                        self.phase = Phase::Finished;
                        SessionAction::Finish(SessionResult::Command(c))
                    },
                    Err(m) => {
                        self.error = Some(m);
                        self.edit_loop()
                    },
                }
            },
            (p, _) => {
                self.phase = p;
                SessionAction::Finish(SessionResult::Cancelled)
            },
        };
        r
    }
}

/// Up followed by Down, from a fresh request line, brings back the request
/// as it was typed, with its cursor.
pub proof fn law_up_then_down_restores_draft(s: SessionView)
    requires
        s.wf(),
        s.phase == PhaseView::Editing,
        s.history.len() > 0,
        s.history_index == s.history.len(),
    ensures
        ({
            let s1 = s.next(SessionInput::Event(TerminalEvent::Up)).0;
            let s2 = s1.next(SessionInput::Event(TerminalEvent::Down)).0;
            &&& s2.request.text == s.request.text
            &&& s2.request.cursor == s.request.cursor
            &&& s2.history_index == s.history_index
            &&& s2.phase == PhaseView::Editing
        }),
{
}

/// Two presses of Escape always end the session: the first one clears a
/// typed request, the next one cancels.
pub proof fn law_escape_twice_cancels(s: SessionView)
    requires
        s.wf(),
        s.phase == PhaseView::Editing,
    ensures
        ({
            let (s1, a1) = s.next(SessionInput::Event(TerminalEvent::Escape));
            a1 == ActionView::Cancelled || (s1.phase == PhaseView::Editing
                && s1.next(SessionInput::Event(TerminalEvent::Escape)).1 == ActionView::Cancelled)
        }),
{
    let (s1, a1) = s.next(SessionInput::Event(TerminalEvent::Escape));
    if s.request.text.len() != 0 {
        assert(Seq::<char>::empty().len() == 0);
        assert(crate::input::clean(Seq::<char>::empty()) == Seq::<char>::empty());
        assert(s1.request.text =~= Seq::<char>::empty());
    }
}

/// A prompt history holds each prompt once.
pub open spec fn distinct(h: Seq<Seq<char>>) -> bool {
    forall|i: int, j: int| 0 <= i < j < h.len() ==> h[i] != h[j]
}

/// The prompt history only grows, by appending, and keeps each prompt once.
pub proof fn law_history_grows_without_duplicates(s: SessionView, i: SessionInput)
    requires
        s.wf(),
        s.accepts(i),
    ensures
        s.history.is_prefix_of(s.next(i).0.history),
        distinct(s.history) ==> distinct(s.next(i).0.history),
{
    lemma_history_step(s, i);
}

/// Submitting a request records it in the history before the provider is
/// asked, and asks for the trimmed text.
pub proof fn law_submission_is_recorded(s: SessionView)
    requires
        s.wf(),
        s.phase == PhaseView::Editing,
        trimmed(s.request.text).len() > 0,
    ensures
        ({
            let (s1, a) = s.next(SessionInput::Event(TerminalEvent::Enter));
            &&& a == ActionView::Suggest { request: trimmed(s.request.text) }
            &&& trimmed(trimmed(s.request.text)) == trimmed(s.request.text)
            &&& s1.history.contains(trimmed(s.request.text))
            &&& s1.phase == PhaseView::Requesting
        }),
{
    let t = trimmed(s.request.text);
    crate::text::lemma_trimmed_tidy(s.request.text);
    crate::text::lemma_trimmed_unchanged(t);
    if !s.history.contains(t) {
        assert(s.history.push(t)[s.history.len() as int] == t);
    }
}

/// A movement of the cursor alone: it changes no text.
pub open spec fn is_movement(e: TerminalEvent) -> bool {
    match e {
        TerminalEvent::Left | TerminalEvent::Right | TerminalEvent::Home | TerminalEvent::End
        | TerminalEvent::WordLeft | TerminalEvent::WordRight => true,
        _ => false,
    }
}

/// Undo takes back an edit: after a key that changes the text, undo
/// restores the text and the cursor as they were, and the change can be
/// redone.
pub proof fn law_undo_takes_back_an_edit(s: SessionView, e: TerminalEvent)
    requires
        s.wf(),
        s.phase == PhaseView::Editing,
        is_text_edit(e),
        !(s.request.text.len() == 0 && (e == TerminalEvent::Character(s.history_key)
            || e == TerminalEvent::Character(s.menu_key))),
        s.request.edited(e).text != s.request.text,
    ensures
        ({
            let s1 = s.next(SessionInput::Event(e)).0;
            let s2 = s1.next(SessionInput::Event(TerminalEvent::Undo)).0;
            let s3 = s2.next(SessionInput::Event(TerminalEvent::Redo)).0;
            &&& s2.request.text == s.request.text
            &&& s2.request.cursor == s.request.cursor
            &&& s3.request.text == s1.request.text
            &&& s3.request.cursor == s1.request.cursor
        }),
{
    let s1 = s.next(SessionInput::Event(e)).0;
    assert(s1.undo.last() == (s.request.text, s.request.cursor));
    let s2 = s1.next(SessionInput::Event(TerminalEvent::Undo)).0;
    assert(s2.redo.last() == (s1.request.text, s1.request.cursor));
}

/// Moving the cursor records nothing and forgets nothing that undo or redo
/// could use.
pub proof fn law_movement_keeps_undo_and_redo(s: SessionView, e: TerminalEvent)
    requires
        s.wf(),
        s.phase == PhaseView::Editing,
        is_movement(e),
    ensures
        s.next(SessionInput::Event(e)).0.undo == s.undo,
        s.next(SessionInput::Event(e)).0.redo == s.redo,
        s.next(SessionInput::Event(e)).0.request.text == s.request.text,
{
}

/// A new change of the text forgets what was undone.
pub proof fn law_change_clears_redo(s: SessionView, e: TerminalEvent)
    requires
        s.wf(),
        s.phase == PhaseView::Editing,
        is_text_edit(e),
        !(s.request.text.len() == 0 && (e == TerminalEvent::Character(s.history_key)
            || e == TerminalEvent::Character(s.menu_key))),
        s.request.edited(e).text != s.request.text,
    ensures
        s.next(SessionInput::Event(e)).0.redo.len() == 0,
{
}

/// The session never keeps more than [`UNDO_LIMIT`] steps to undo.
pub proof fn law_undo_is_bounded(s: SessionView, i: SessionInput)
    requires
        s.wf(),
        s.accepts(i),
        s.undo.len() <= UNDO_LIMIT,
    ensures
        s.next(i).0.undo.len() <= UNDO_LIMIT,
{
}

/// A history search finds the newest entry, at or before where it looks,
/// that holds the query; no newer one there holds it.
pub proof fn law_search_finds_the_newest_match(h: Seq<Seq<char>>, q: Seq<char>, i: int)
    requires
        i < h.len(),
    ensures
        match matching(h, q, i) {
            Some(j) => 0 <= j <= i && has_part(h[j], q) && forall|k: int| j < k <= i ==> !has_part(#[trigger] h[k], q),
            None => forall|k: int| 0 <= k <= i ==> !has_part(#[trigger] h[k], q),
        },
    decreases i + 1,
{
    if i >= 0 && !has_part(h[i], q) {
        law_search_finds_the_newest_match(h, q, i - 1);
    }
}

/// Leaving a search with Escape or Ctrl+C gives back the request as it was
/// before the search, and a search adds nothing to the history.
pub proof fn law_leaving_search_restores_the_draft(s: SessionView, e: TerminalEvent)
    requires
        s.wf(),
        s.phase matches PhaseView::Search { .. },
        e == TerminalEvent::Escape || e == TerminalEvent::Interrupt,
    ensures
        s.next(SessionInput::Event(e)).0.request == s.request,
        s.next(SessionInput::Event(e)).0.history == s.history,
        s.next(SessionInput::Event(e)).0.phase == PhaseView::Editing,
{
}

/// Ctrl+C closes the session without a request to the provider.
pub proof fn law_interrupt_cancels(s: SessionView)
    requires
        s.wf(),
        s.phase == PhaseView::Editing,
    ensures
        s.next(SessionInput::Event(TerminalEvent::Interrupt)).1 == ActionView::Cancelled,
{
}

/// Text from the external editor becomes the request as one clean line
/// (line breaks become spaces, control characters go), and it is not
/// submitted.
pub proof fn law_editor_output_is_not_submitted(s: SessionView, t: String)
    requires
        s.wf(),
        s.phase == PhaseView::ExternalEdit,
    ensures
        ({
            let (s1, a) = s.next(SessionInput::Edited(Ok(t)));
            &&& a == ActionView::ReadEvent
            &&& s1.request.text == crate::input::clean(t@)
            &&& crate::input::single_line(s1.request.text)
        }),
{
    crate::input::lemma_clean_single_line(t@);
    assert(Seq::<char>::empty().take(0) + crate::input::clean(t@) + Seq::<char>::empty().skip(0)
        =~= crate::input::clean(t@));
}

/// Completion inserts at the cursor and keeps the text after it.
pub proof fn law_completion_keeps_the_rest(s: SessionView, t: String)
    requires
        s.wf(),
        s.phase == PhaseView::Completing,
    ensures
        ({
            let s1 = s.next(SessionInput::Completion(Some(t))).0;
            &&& s1.request.text == s.request.text.take(s.request.cursor) + crate::input::clean(t@)
                + s.request.text.skip(s.request.cursor)
            &&& s1.request.cursor == s.request.cursor + crate::input::clean(t@).len()
        }),
{
}

/// Past the oldest match, searching again starts over from the newest.
pub proof fn law_search_wraps_to_the_newest(h: Seq<Seq<char>>, q: Seq<char>, i: int)
    requires
        matching(h, q, i - 1) is None,
    ensures
        older_match(h, q, Some(i)) == newest_match(h, q),
{
}

/// Enter in a search takes the match into the request line, or gives back
/// the request as it was when nothing matches; it never submits.
pub proof fn law_search_enter_does_not_submit(s: SessionView)
    requires
        s.wf(),
        s.phase matches PhaseView::Search { .. },
    ensures
        ({
            let (s1, a) = s.next(SessionInput::Event(TerminalEvent::Enter));
            &&& a == ActionView::ReadEvent
            &&& s1.phase == PhaseView::Editing
            &&& s1.history == s.history
            &&& (s.phase->found is None ==> s1.request == s.request)
            &&& (s.phase->found matches Some(i) ==> s1.request.text == crate::input::clean(s.history[i]))
        }),
{
    if let PhaseView::Search { query, found } = s.phase {
        if let Some(i) = found {
            assert(Seq::<char>::empty().take(0) + crate::input::clean(s.history[i]) + Seq::<char>::empty().skip(0)
                =~= crate::input::clean(s.history[i]));
        }
    }
}

/// Pasted text is inserted as text: a paste never submits, opens a picker
/// or a menu, whatever it holds.
pub proof fn law_paste_never_submits(s: SessionView, t: String)
    requires
        s.wf(),
        s.phase == PhaseView::Editing,
    ensures
        s.next(SessionInput::Event(TerminalEvent::Paste(t))).1 == ActionView::ReadEvent,
        s.next(SessionInput::Event(TerminalEvent::Paste(t))).0.request == s.request.inserted(t@),
{
}

/// When the external editor fails, the request stays as it was and the
/// failure is shown.
pub proof fn law_editor_failure_keeps_the_prompt(s: SessionView, m: String)
    requires
        s.wf(),
        s.phase == PhaseView::ExternalEdit,
    ensures
        ({
            let (s1, a) = s.next(SessionInput::Edited(Err(m)));
            &&& a == ActionView::ReadEvent
            &&& s1.request == s.request
            &&& s1.error == Some(m@)
        }),
{
}

/// A change of the terminal's size changes nothing in the session: the
/// request line, or the search, is drawn again as it was.
pub proof fn law_resize_redraws(s: SessionView)
    requires
        s.wf(),
        s.phase == PhaseView::Editing || s.phase is Search,
    ensures
        s.next(SessionInput::Event(TerminalEvent::Resize)) == (s, ActionView::ReadEvent),
{
}

/// Nothing typed during a history search adds to the history.
pub proof fn law_search_keeps_the_history(s: SessionView, e: TerminalEvent)
    requires
        s.wf(),
        s.phase matches PhaseView::Search { .. },
    ensures
        s.next(SessionInput::Event(e)).0.history == s.history,
{
}

/// A prompt picked from the history, a completion and the editor's text
/// can each be taken back by undo, with the cursor where it was.
pub proof fn law_replacements_can_be_undone(s: SessionView, i: SessionInput)
    requires
        s.wf(),
        s.accepts(i),
        match i {
            SessionInput::HistoryChoice(Some(_)) | SessionInput::Completion(Some(_))
            | SessionInput::Edited(Ok(_)) => true,
            _ => false,
        },
        s.next(i).0.request.text != s.request.text,
    ensures
        ({
            let s1 = s.next(i).0;
            let s2 = s1.next(SessionInput::Event(TerminalEvent::Undo)).0;
            &&& s1.phase == PhaseView::Editing
            &&& s2.request.text == s.request.text
            &&& s2.request.cursor == s.request.cursor
        }),
{
    let s1 = s.next(i).0;
    assert(s1.undo.last() == (s.request.text, s.request.cursor));
}

/// The session after `inputs`, one after another.
pub open spec fn after_inputs(s: SessionView, inputs: Seq<SessionInput>) -> SessionView
    decreases inputs.len(),
{
    if inputs.len() == 0 {
        s
    } else {
        after_inputs(s.next(inputs[0]).0, inputs.drop_first())
    }
}

/// Whether the session waits for each of `inputs` in turn.
pub open spec fn accepts_all(s: SessionView, inputs: Seq<SessionInput>) -> bool
    decreases inputs.len(),
{
    inputs.len() == 0 || (s.accepts(inputs[0]) && accepts_all(s.next(inputs[0]).0, inputs.drop_first()))
}

proof fn lemma_history_step(s: SessionView, i: SessionInput)
    requires
        s.accepts(i),
    ensures
        s.history.is_prefix_of(s.next(i).0.history),
        distinct(s.history) ==> distinct(s.next(i).0.history),
{
    assert(s.history.is_prefix_of(s.history));
    let t = trimmed(s.request.text);
    if !s.history.contains(t) {
        assert(s.history.is_prefix_of(s.history.push(t)));
        if distinct(s.history) {
            assert forall|a: int, b: int| 0 <= a < b < s.history.push(t).len() implies s.history.push(t)[a] != s.history.push(t)[b] by {
                if b == s.history.len() {
                    assert(s.history.push(t)[a] == s.history[a]);
                }
            }
        }
    }
}

/// `h` is `h0` with prompts appended that are new: none of them is in `h0`
/// and none repeats.
pub open spec fn grown_by_new(h0: Seq<Seq<char>>, h: Seq<Seq<char>>) -> bool {
    &&& h0.is_prefix_of(h)
    &&& forall|i: int| h0.len() <= i < h.len() ==> !h0.contains(#[trigger] h[i])
    &&& forall|i: int, j: int| h0.len() <= i < j < h.len() ==> #[trigger] h[i] != #[trigger] h[j]
}

proof fn lemma_history_step_new(s: SessionView, i: SessionInput)
    requires
        s.accepts(i),
    ensures
        s.next(i).0.history == s.history || exists|t: Seq<char>|
            s.next(i).0.history == s.history.push(t) && !s.history.contains(t),
{
}

/// Over a whole session the history only grows, by appending prompts that
/// were not in it before and that do not repeat; so a history that held
/// each prompt once still does.
pub proof fn law_history_over_a_session(s: SessionView, inputs: Seq<SessionInput>)
    requires
        accepts_all(s, inputs),
    ensures
        grown_by_new(s.history, after_inputs(s, inputs).history),
        distinct(s.history) ==> distinct(after_inputs(s, inputs).history),
    decreases inputs.len(),
{
    let h0 = s.history;
    let h = after_inputs(s, inputs).history;
    if inputs.len() == 0 {
        assert(h0.is_prefix_of(h0));
    } else {
        let s1 = s.next(inputs[0]).0;
        let h1 = s1.history;
        lemma_history_step_new(s, inputs[0]);
        law_history_over_a_session(s1, inputs.drop_first());
        assert(h.subrange(0, h1.len() as int) =~= h1);
        if h1 == h0 {
        } else {
            let t = choose|t: Seq<char>| h1 == h0.push(t) && !h0.contains(t);
            assert(h1[h0.len() as int] == t);
            assert(h[h0.len() as int] == t);
            assert(h.subrange(0, h0.len() as int) =~= h0);
            assert forall|i: int| h0.len() <= i < h.len() implies !h0.contains(#[trigger] h[i]) by {
                if i > h0.len() {
                    if h0.contains(h[i]) {
                        let k = choose|k: int| 0 <= k < h0.len() && h0[k] == h[i];
                        assert(h1[k] == h0[k]);
                        assert(h1.contains(h[i]));
                    }
                }
            }
            assert forall|i: int, j: int| h0.len() <= i < j < h.len() implies #[trigger] h[i] != #[trigger] h[j] by {
                if i == h0.len() {
                    assert(h1[h0.len() as int] == t);
                    assert(h1.contains(t));
                }
            }
        }
        if distinct(h0) {
            assert forall|a: int, b: int| 0 <= a < b < h.len() implies h[a] != h[b] by {
                if b >= h0.len() && a < h0.len() {
                    assert(h[a] == h0[a]);
                    assert(h0.contains(h0[a]));
                } else if b < h0.len() {
                    assert(h[a] == h0[a] && h[b] == h0[b]);
                }
            }
        }
    }
}

/// `provider/model` splits at its slash into the provider and the model,
/// when the provider name holds no slash.
proof fn lemma_split_model_id(provider: Seq<char>, model: Seq<char>)
    requires
        !provider.contains('/'),
    ensures
        split_once(provider + seq!['/'] + model, '/') == Some((provider, model)),
{
    let id = provider + seq!['/'] + model;
    let k = provider.len() as int;
    assert(id[k] == '/');
    assert forall|j: int| 0 <= j < k implies id[j] != '/' by {
        assert(id[j] == provider[j]);
    }
    crate::text::lemma_first_char_at(id, '/', k);
    assert(id.take(k) =~= provider);
    assert(id.skip(k + 1) =~= model);
}

/// The model picker starts on the current model: when the active model is
/// `provider/model` and `model` is one of the provider's models, the first
/// entry shown is that model. For another provider it starts at the top.
pub proof fn law_model_picker_starts_on_the_current_model(
    provider: Seq<char>,
    models: Seq<Seq<char>>,
    other: Seq<char>,
    model: Seq<char>,
)
    requires
        !provider.contains('/'),
        !other.contains('/'),
    ensures
        models.contains(model) ==> {
            let r = model_default(provider, models, provider + seq!['/'] + model);
            0 <= r < models.len() && models[r] == model
        },
        other != provider ==> model_default(provider, models, other + seq!['/'] + model) == 0,
{
    lemma_split_model_id(provider, model);
    lemma_split_model_id(other, model);
    crate::text::lemma_position(models, model);
}

/// The provider picker starts on the current provider: when the active
/// model is `provider/model` and `provider` is configured, the first entry
/// shown is that provider.
pub proof fn law_provider_picker_starts_on_the_current_provider(
    providers: Seq<Seq<char>>,
    provider: Seq<char>,
    model: Seq<char>,
)
    requires
        !provider.contains('/'),
        providers.contains(provider),
    ensures
        ({
            let r = provider_default(providers, provider + seq!['/'] + model);
            0 <= r < providers.len() && providers[r] == provider
        }),
{
    lemma_split_model_id(provider, model);
    crate::text::lemma_position(providers, provider);
}

} // verus!
