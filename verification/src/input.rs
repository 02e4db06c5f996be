//! Single-line request input with a cursor and a kill buffer.

use vstd::prelude::*;

use crate::text::{char_is_control, char_is_whitespace, chars_of, is_control, is_space, string_of};
use vstd::utf8::{encode_scalar, encode_utf8, encode_utf8_first_scalar, encode_utf8_valid_utf8, is_char_boundary, pop_first_scalar};
use crate::utf8::{byte_len, lemma_prefix_byte_len_monotone, prefix_byte_len};

verus! {

/// Keys and pastes that reach a request session.
#[derive(Clone, Debug, PartialEq, Eq)]
pub enum TerminalEvent {
    Character(char),
    Backspace,
    Delete,
    Left,
    Right,
    Home,
    End,
    WordLeft,
    WordRight,
    KillWord,
    KillStart,
    KillEnd,
    Yank,
    Paste(String),
    Up,
    Down,
    Enter,
    Escape,
    /// Close the session without a request (Ctrl+C).
    Interrupt,
    /// Take back the last change of the text.
    Undo,
    /// Make again a change taken back.
    Redo,
    /// Search the prompt history.
    Search,
    /// Open the request in the external editor.
    EditExternally,
    /// Complete the word before the cursor.
    Complete,
    /// The terminal changed size; the request line is drawn again.
    Resize,
}

/// Text as it enters the buffer: a CR LF pair and every other white-space
/// character become one space, and the remaining control characters vanish.
pub open spec fn clean(s: Seq<char>) -> Seq<char>
    decreases s.len(),
{
    if s.len() == 0 {
        Seq::empty()
    } else if s.len() >= 2 && s[0] == '\r' && s[1] == '\n' {
        seq![' '] + clean(s.skip(2))
    } else if is_space(s[0]) {
        seq![' '] + clean(s.skip(1))
    } else if is_control(s[0]) {
        clean(s.skip(1))
    } else {
        seq![s[0]] + clean(s.skip(1))
    }
}

/// Text that holds no control character and no white space but plain spaces.
pub open spec fn single_line(s: Seq<char>) -> bool {
    forall|i: int| 0 <= i < s.len() ==> !is_control(#[trigger] s[i]) && (is_space(s[i]) ==> s[i] == ' ')
}

/// Start of the white space run that ends at `k`.
pub open spec fn back_spaces(t: Seq<char>, k: int) -> int
    decreases k,
{
    if k <= 0 {
        0
    } else if is_space(t[k - 1]) {
        back_spaces(t, k - 1)
    } else {
        k
    }
}

/// Start of the word that ends at `k`.
pub open spec fn back_word(t: Seq<char>, k: int) -> int
    decreases k,
{
    if k <= 0 {
        0
    } else if !is_space(t[k - 1]) {
        back_word(t, k - 1)
    } else {
        k
    }
}

/// End of the white space run that starts at `k`.
pub open spec fn fwd_spaces(t: Seq<char>, k: int) -> int
    decreases t.len() - k,
{
    if k >= t.len() {
        t.len() as int
    } else if is_space(t[k]) {
        fwd_spaces(t, k + 1)
    } else {
        k
    }
}

/// End of the word that starts at `k`.
pub open spec fn fwd_word(t: Seq<char>, k: int) -> int
    decreases t.len() - k,
{
    if k >= t.len() {
        t.len() as int
    } else if !is_space(t[k]) {
        fwd_word(t, k + 1)
    } else {
        k
    }
}

/// Where a word-left move from `k` lands: before the spaces, then before the word.
pub open spec fn word_start(t: Seq<char>, k: int) -> int {
    back_word(t, back_spaces(t, k))
}

/// Where a word-right move from `k` lands: past the spaces, then past the word.
pub open spec fn word_end(t: Seq<char>, k: int) -> int {
    fwd_word(t, fwd_spaces(t, k))
}

/// The abstract state of an input buffer.
pub struct InputView {
    pub text: Seq<char>,
    pub cursor: int,
    pub killed: Seq<char>,
}

impl InputView {
    pub open spec fn wf(self) -> bool {
        0 <= self.cursor <= self.text.len()
    }

    /// The character before the cursor, or the start.
    pub open spec fn previous(self) -> int {
        if self.cursor > 0 {
            self.cursor - 1
        } else {
            0
        }
    }

    /// The character after the cursor, or the end.
    pub open spec fn next(self) -> int {
        if self.cursor < self.text.len() {
            self.cursor + 1
        } else {
            self.cursor
        }
    }

    /// `s` inserted at the cursor, cleaned, with the cursor after it.
    pub open spec fn inserted(self, s: Seq<char>) -> InputView {
        let c = clean(s);
        InputView {
            text: self.text.take(self.cursor) + c + self.text.skip(self.cursor),
            cursor: self.cursor + c.len(),
            killed: self.killed,
        }
    }

    /// The range `start..end` removed (and kept for a yank when `kill`).
    pub open spec fn removed(self, start: int, end: int, kill: bool) -> InputView {
        if start == end {
            self
        } else {
            InputView {
                text: self.text.take(start) + self.text.skip(end),
                cursor: start,
                killed: if kill {
                    self.text.subrange(start, end)
                } else {
                    self.killed
                },
            }
        }
    }

    /// The buffer after one event.
    pub open spec fn edited(self, e: TerminalEvent) -> InputView {
        match e {
            TerminalEvent::Left => InputView { cursor: self.previous(), ..self },
            TerminalEvent::Right => InputView { cursor: self.next(), ..self },
            TerminalEvent::Home => InputView { cursor: 0, ..self },
            TerminalEvent::End => InputView { cursor: self.text.len() as int, ..self },
            TerminalEvent::WordLeft => InputView { cursor: word_start(self.text, self.cursor), ..self },
            TerminalEvent::WordRight => InputView { cursor: word_end(self.text, self.cursor), ..self },
            TerminalEvent::Character(c) => self.inserted(seq![c]),
            TerminalEvent::Paste(s) => self.inserted(s@),
            TerminalEvent::Backspace => self.removed(self.previous(), self.cursor, false),
            TerminalEvent::Delete => self.removed(self.cursor, self.next(), false),
            TerminalEvent::KillWord => self.removed(word_start(self.text, self.cursor), self.cursor, true),
            TerminalEvent::KillStart => self.removed(0, self.cursor, true),
            TerminalEvent::KillEnd => self.removed(self.cursor, self.text.len() as int, true),
            TerminalEvent::Yank => self.inserted(self.killed),
            _ => self,
        }
    }
}

/// Events that change the text; the others only move the cursor or are
/// handled by the session.
pub open spec fn is_text_edit(e: TerminalEvent) -> bool {
    match e {
        TerminalEvent::Character(_) | TerminalEvent::Paste(_) | TerminalEvent::Backspace
        | TerminalEvent::Delete | TerminalEvent::KillWord | TerminalEvent::KillStart
        | TerminalEvent::KillEnd | TerminalEvent::Yank => true,
        _ => false,
    }
}

/// Single-line request text with a cursor between characters and the text
/// of the last kill.
#[derive(Clone, Debug)]
pub struct InputBuffer {
    text: Vec<char>,
    cursor: usize,
    killed: Vec<char>,
}

impl View for InputBuffer {
    type V = InputView;

    open spec fn view(&self) -> InputView {
        self.model()
    }
}

impl InputBuffer {
    /// The abstract state of this buffer.
    pub closed spec fn model(&self) -> InputView {
        InputView { text: self.text@, cursor: self.cursor as int, killed: self.killed@ }
    }
}

/// `t[..start] + ins + t[end..]`.
fn splice(t: &Vec<char>, start: usize, end: usize, ins: &Vec<char>) -> (r: Vec<char>)
    requires
        start <= end <= t@.len(),
    ensures
        r@ == t@.take(start as int) + ins@ + t@.skip(end as int),
{
    let mut r: Vec<char> = Vec::new();
    let mut i: usize = 0;
    while i < start
        invariant
            i <= start <= end <= t@.len(),
            r@ == t@.take(i as int),
        decreases start - i,
    {
        r.push(t[i]);
        i = i + 1;
        assert(r@ =~= t@.take(i as int));
    }
    let mut j: usize = 0;
    while j < ins.len()
        invariant
            j <= ins@.len(),
            r@ == t@.take(start as int) + ins@.take(j as int),
        decreases ins@.len() - j,
    {
        r.push(ins[j]);
        j = j + 1;
        assert(r@ =~= t@.take(start as int) + ins@.take(j as int));
    }
    let mut k: usize = end;
    while k < t.len()
        invariant
            end <= k <= t@.len(),
            r@ == t@.take(start as int) + ins@ + t@.subrange(end as int, k as int),
        decreases t@.len() - k,
    {
        r.push(t[k]);
        k = k + 1;
        assert(r@ =~= t@.take(start as int) + ins@ + t@.subrange(end as int, k as int));
    }
    assert(ins@.take(ins@.len() as int) =~= ins@);
    assert(t@.subrange(end as int, t@.len() as int) =~= t@.skip(end as int));
    r
}

/// Cleans pasted or typed text (see [`clean`]).
pub fn clean_chars(s: &Vec<char>) -> (r: Vec<char>)
    ensures
        r@ == clean(s@),
{
    let mut r: Vec<char> = Vec::new();
    let mut i: usize = 0;
    assert(s@.skip(0) =~= s@);
    assert(r@ + clean(s@) =~= clean(s@));
    while i < s.len()
        invariant
            i <= s@.len(),
            clean(s@) == r@ + clean(s@.skip(i as int)),
        decreases s@.len() - i,
    {
        let rest = Ghost(s@.skip(i as int));
        let c = s[i];
        if c == '\r' && i + 1 < s.len() && s[i + 1] == '\n' {
            r.push(' ');
            proof {
                assert(rest@.skip(2) =~= s@.skip(i + 2));
            }
            i = i + 2;
        } else if char_is_whitespace(c) {
            r.push(' ');
            proof {
                assert(rest@.skip(1) =~= s@.skip(i + 1));
            }
            i = i + 1;
        } else if char_is_control(c) {
            proof {
                assert(rest@.skip(1) =~= s@.skip(i + 1));
            }
            i = i + 1;
        } else {
            r.push(c);
            proof {
                assert(rest@.skip(1) =~= s@.skip(i + 1));
            }
            i = i + 1;
        }
    }
    assert(s@.skip(i as int) =~= Seq::<char>::empty());
    assert(r@ + Seq::<char>::empty() =~= r@);
    r
}

impl InputBuffer {
    /// An empty buffer with nothing killed.
    pub fn new() -> (r: InputBuffer)
        ensures
            r@.text == Seq::<char>::empty(),
            r@.cursor == 0,
            r@.killed == Seq::<char>::empty(),
            r@.wf(),
    {
        InputBuffer { text: Vec::new(), cursor: 0, killed: Vec::new() }
    }

    pub fn is_empty(&self) -> (r: bool)
        ensures
            r == (self@.text.len() == 0),
    {
        self.text.len() == 0
    }

    /// The text, as a string.
    pub fn text(&self) -> (r: String)
        ensures
            r@ == self@.text,
    {
        string_of(&self.text)
    }

    /// The cursor as a UTF-8 byte offset into [`InputBuffer::text`].
    pub fn cursor(&self) -> (r: usize)
        requires
            self@.wf(),
            byte_len(self@.text) <= usize::MAX,
        ensures
            r == byte_len(self@.text.take(self@.cursor)),
    {
        proof {
            lemma_prefix_byte_len_monotone(self.text@, self.cursor as int);
        }
        prefix_byte_len(&self.text, self.cursor)
    }

    /// The cursor as a count of characters before it.
    pub fn cursor_chars(&self) -> (r: usize)
        ensures
            r == self@.cursor,
    {
        self.cursor
    }

    /// Replaces the text with `text` (cleaned) and puts the cursor after it.
    pub fn set(&mut self, text: &str)
        ensures
            final(self)@ == (InputView { text: Seq::empty(), cursor: 0, killed: old(self)@.killed }).inserted(text@),
            final(self)@.wf(),
    {
        self.text = Vec::new();
        self.cursor = 0;
        self.insert(text);
    }

    /// Inserts `text`, cleaned, at the cursor.
    pub fn insert(&mut self, text: &str)
        requires
            old(self)@.wf(),
        ensures
            final(self)@ == old(self)@.inserted(text@),
            final(self)@.wf(),
    {
        let chars = chars_of(text);
        self.insert_chars(&chars);
    }

    fn insert_chars(&mut self, s: &Vec<char>)
        requires
            old(self)@.wf(),
        ensures
            final(self)@ == old(self)@.inserted(s@),
            final(self)@.wf(),
    {
        let c = clean_chars(s);
        let t = splice(&self.text, self.cursor, self.cursor, &c);
        let n = self.cursor;
        let tl = t.len();
        assert(tl == n + c@.len() + (self.text@.len() - n));
        self.text = t;
        self.cursor = n + c.len();
    }

    /// A copy of this buffer.
    pub fn duplicate(&self) -> (r: InputBuffer)
        ensures
            r@ == self@,
    {
        InputBuffer { text: self.text.clone(), cursor: self.cursor, killed: self.killed.clone() }
    }

    /// Whether the two buffers hold the same text.
    pub fn same_text(&self, other: &InputBuffer) -> (r: bool)
        ensures
            r == (self@.text == other@.text),
    {
        crate::text::chars_eq(&self.text, &other.text)
    }

    /// The cursor as a UTF-8 byte offset, when that offset fits in a `usize`.
    pub fn checked_cursor(&self) -> (r: Option<usize>)
        requires
            self@.wf(),
        ensures
            match r {
                Some(b) => b == byte_len(self@.text.take(self@.cursor)),
                None => byte_len(self@.text.take(self@.cursor)) > usize::MAX,
            },
    {
        let mut i: usize = 0;
        let mut acc: usize = 0;
        assert(self.text@.take(0) =~= Seq::<char>::empty());
        while i < self.cursor
            invariant
                i <= self.cursor <= self.text@.len(),
                acc == byte_len(self.text@.take(i as int)),
            decreases self.cursor - i,
        {
            let w = crate::utf8::utf8_width(self.text[i]);
            proof {
                crate::utf8::lemma_encode_push(self.text@.take(i as int), self.text@[i as int]);
                assert(self.text@.take(i as int).push(self.text@[i as int]) =~= self.text@.take(i + 1));
            }
            match acc.checked_add(w) {
                Some(next) => {
                    acc = next;
                },
                None => {
                    proof {
                        lemma_prefix_byte_len_monotone(self.text@.take(self.cursor as int), i + 1);
                        assert(self.text@.take(self.cursor as int).take(i + 1) =~= self.text@.take(i + 1));
                    }
                    return None;
                },
            }
            i = i + 1;
        }
        Some(acc)
    }

    /// Takes the text and cursor of `from`, keeping this buffer's kill text.
    pub fn restore(&mut self, from: &InputBuffer)
        requires
            from@.wf(),
        ensures
            final(self)@ == (InputView { text: from@.text, cursor: from@.cursor, killed: old(self)@.killed }),
    {
        self.text = from.text.clone();
        self.cursor = from.cursor;
    }

    /// Position of the character before the cursor.
    pub fn previous(&self) -> (r: usize)
        ensures
            r == self@.previous(),
    {
        if self.cursor > 0 {
            self.cursor - 1
        } else {
            0
        }
    }

    /// Position after the character at the cursor.
    pub fn next(&self) -> (r: usize)
        ensures
            r == self@.next(),
    {
        if self.cursor < self.text.len() {
            self.cursor + 1
        } else {
            self.cursor
        }
    }

    /// Start of the word before the cursor.
    pub fn word_left(&self) -> (r: usize)
        requires
            self@.wf(),
        ensures
            r == word_start(self@.text, self@.cursor),
    {
        let mut i = self.cursor;
        while i > 0 && char_is_whitespace(self.text[i - 1])
            invariant
                i <= self.text@.len(),
                back_spaces(self.text@, self.cursor as int) == back_spaces(self.text@, i as int),
            decreases i,
        {
            i = i - 1;
        }
        let mut j = i;
        while j > 0 && !char_is_whitespace(self.text[j - 1])
            invariant
                j <= self.text@.len(),
                back_spaces(self.text@, self.cursor as int) == i,
                word_start(self.text@, self.cursor as int) == back_word(self.text@, j as int),
            decreases j,
        {
            j = j - 1;
        }
        j
    }

    /// End of the word after the cursor.
    pub fn word_right(&self) -> (r: usize)
        requires
            self@.wf(),
        ensures
            r == word_end(self@.text, self@.cursor),
    {
        let n = self.text.len();
        let mut i = self.cursor;
        while i < n && char_is_whitespace(self.text[i])
            invariant
                i <= n == self.text@.len(),
                fwd_spaces(self.text@, self.cursor as int) == fwd_spaces(self.text@, i as int),
            decreases n - i,
        {
            i = i + 1;
        }
        let mut j = i;
        while j < n && !char_is_whitespace(self.text[j])
            invariant
                i <= j <= n == self.text@.len(),
                fwd_spaces(self.text@, self.cursor as int) == i,
                word_end(self.text@, self.cursor as int) == fwd_word(self.text@, j as int),
            decreases n - j,
        {
            j = j + 1;
        }
        j
    }

    /// Removes `start..end`; a kill keeps the removed text for a yank.
    pub fn remove(&mut self, start: usize, end: usize, kill: bool)
        requires
            old(self)@.wf(),
            start <= end <= old(self)@.text.len(),
        ensures
            final(self)@ == old(self)@.removed(start as int, end as int, kill),
            final(self)@.wf(),
    {
        if start == end {
            return;
        }
        if kill {
            self.killed = self.text_range(start, end);
        }
        let empty: Vec<char> = Vec::new();
        let t = splice(&self.text, start, end, &empty);
        assert(t@ =~= old(self)@.text.take(start as int) + old(self)@.text.skip(end as int));
        self.text = t;
        self.cursor = start;
    }

    fn text_range(&self, start: usize, end: usize) -> (r: Vec<char>)
        requires
            start <= end <= self@.text.len(),
        ensures
            r@ == self@.text.subrange(start as int, end as int),
    {
        let mut r: Vec<char> = Vec::new();
        let mut i = start;
        while i < end
            invariant
                start <= i <= end <= self.text@.len(),
                r@ == self.text@.subrange(start as int, i as int),
            decreases end - i,
        {
            r.push(self.text[i]);
            i = i + 1;
            assert(r@ =~= self.text@.subrange(start as int, i as int));
        }
        r
    }

    /// Applies one event. Returns true for edits, but not cursor movement.
    pub fn edit(&mut self, event: TerminalEvent) -> (r: bool)
        requires
            old(self)@.wf(),
        ensures
            final(self)@ == old(self)@.edited(event),
            final(self)@.wf(),
            r == is_text_edit(event),
    {
        match event {
            TerminalEvent::Left => {
                self.cursor = self.previous();
            },
            TerminalEvent::Right => {
                self.cursor = self.next();
            },
            TerminalEvent::Home => {
                self.cursor = 0;
            },
            TerminalEvent::End => {
                self.cursor = self.text.len();
            },
            TerminalEvent::WordLeft => {
                let k = self.word_left();
                proof {
                    lemma_word_start_bounds(self.text@, self.cursor as int);
                }
                self.cursor = k;
            },
            TerminalEvent::WordRight => {
                let k = self.word_right();
                proof {
                    lemma_word_end_bounds(self.text@, self.cursor as int);
                }
                self.cursor = k;
            },
            TerminalEvent::Character(c) => {
                let mut one: Vec<char> = Vec::new();
                one.push(c);
                assert(one@ =~= seq![c]);
                self.insert_chars(&one);
                return true;
            },
            TerminalEvent::Paste(text) => {
                self.insert(text.as_str());
                return true;
            },
            TerminalEvent::Backspace => {
                let p = self.previous();
                let c = self.cursor;
                self.remove(p, c, false);
                return true;
            },
            TerminalEvent::Delete => {
                let c = self.cursor;
                let n = self.next();
                self.remove(c, n, false);
                return true;
            },
            TerminalEvent::KillWord => {
                let s = self.word_left();
                proof {
                    lemma_word_start_bounds(self.text@, self.cursor as int);
                }
                let c = self.cursor;
                self.remove(s, c, true);
                return true;
            },
            TerminalEvent::KillStart => {
                let c = self.cursor;
                self.remove(0, c, true);
                return true;
            },
            TerminalEvent::KillEnd => {
                let c = self.cursor;
                let n = self.text.len();
                self.remove(c, n, true);
                return true;
            },
            TerminalEvent::Yank => {
                let k = self.killed.clone();
                self.insert_chars(&k);
                return true;
            },
            _ => {},
        }
        false
    }
}

/// A word-left move stays between the start and the cursor.
pub proof fn lemma_word_start_bounds(t: Seq<char>, k: int)
    requires
        0 <= k <= t.len(),
    ensures
        0 <= word_start(t, k) <= k,
{
    lemma_back_spaces_bounds(t, k);
    lemma_back_word_bounds(t, back_spaces(t, k));
}

/// A word-right move stays between the cursor and the end.
pub proof fn lemma_word_end_bounds(t: Seq<char>, k: int)
    requires
        0 <= k <= t.len(),
    ensures
        k <= word_end(t, k) <= t.len(),
{
    lemma_fwd_spaces_bounds(t, k);
    lemma_fwd_word_bounds(t, fwd_spaces(t, k));
}

proof fn lemma_back_spaces_bounds(t: Seq<char>, k: int)
    requires
        0 <= k <= t.len(),
    ensures
        0 <= back_spaces(t, k) <= k,
    decreases k,
{
    if k > 0 && is_space(t[k - 1]) {
        lemma_back_spaces_bounds(t, k - 1);
    }
}

proof fn lemma_back_word_bounds(t: Seq<char>, k: int)
    requires
        0 <= k <= t.len(),
    ensures
        0 <= back_word(t, k) <= k,
    decreases k,
{
    if k > 0 && !is_space(t[k - 1]) {
        lemma_back_word_bounds(t, k - 1);
    }
}

proof fn lemma_fwd_spaces_bounds(t: Seq<char>, k: int)
    requires
        0 <= k <= t.len(),
    ensures
        k <= fwd_spaces(t, k) <= t.len(),
    decreases t.len() - k,
{
    if k < t.len() && is_space(t[k]) {
        lemma_fwd_spaces_bounds(t, k + 1);
    }
}

proof fn lemma_fwd_word_bounds(t: Seq<char>, k: int)
    requires
        0 <= k <= t.len(),
    ensures
        k <= fwd_word(t, k) <= t.len(),
    decreases t.len() - k,
{
    if k < t.len() && !is_space(t[k]) {
        lemma_fwd_word_bounds(t, k + 1);
    }
}

/// Cleaned text is single-line text.
pub proof fn lemma_clean_single_line(s: Seq<char>)
    ensures
        single_line(clean(s)),
    decreases s.len(),
{
    if s.len() == 0 {
    } else if s.len() >= 2 && s[0] == '\r' && s[1] == '\n' {
        lemma_clean_single_line(s.skip(2));
        assert forall|i: int| 0 <= i < clean(s).len() implies !is_control(#[trigger] clean(s)[i]) && (is_space(clean(s)[i]) ==> clean(s)[i] == ' ') by {
            if i > 0 {
                assert(clean(s)[i] == clean(s.skip(2))[i - 1]);
            }
        }
    } else if is_space(s[0]) {
        lemma_clean_single_line(s.skip(1));
        assert forall|i: int| 0 <= i < clean(s).len() implies !is_control(#[trigger] clean(s)[i]) && (is_space(clean(s)[i]) ==> clean(s)[i] == ' ') by {
            if i > 0 {
                assert(clean(s)[i] == clean(s.skip(1))[i - 1]);
            }
        }
    } else if is_control(s[0]) {
        lemma_clean_single_line(s.skip(1));
    } else {
        lemma_clean_single_line(s.skip(1));
        assert forall|i: int| 0 <= i < clean(s).len() implies !is_control(#[trigger] clean(s)[i]) && (is_space(clean(s)[i]) ==> clean(s)[i] == ' ') by {
            if i > 0 {
                assert(clean(s)[i] == clean(s.skip(1))[i - 1]);
            }
        }
    }
}

/// Cleaning leaves single-line text as it is.
pub proof fn lemma_clean_single_line_fixed(s: Seq<char>)
    requires
        single_line(s),
    ensures
        clean(s) == s,
    decreases s.len(),
{
    if s.len() > 0 {
        assert(!is_control(s[0]));
        assert(single_line(s.skip(1))) by {
            assert forall|i: int| 0 <= i < s.skip(1).len() implies !is_control(#[trigger] s.skip(1)[i]) && (is_space(s.skip(1)[i]) ==> s.skip(1)[i] == ' ') by {
                assert(s.skip(1)[i] == s[i + 1]);
            }
        }
        lemma_clean_single_line_fixed(s.skip(1));
        assert(s =~= seq![s[0]] + s.skip(1));
    }
}

proof fn lemma_single_line_subrange(s: Seq<char>, a: int, b: int)
    requires
        single_line(s),
        0 <= a <= b <= s.len(),
    ensures
        single_line(s.subrange(a, b)),
{
    assert forall|i: int| 0 <= i < s.subrange(a, b).len() implies !is_control(#[trigger] s.subrange(a, b)[i]) && (is_space(s.subrange(a, b)[i]) ==> s.subrange(a, b)[i] == ' ') by {
        assert(s.subrange(a, b)[i] == s[a + i]);
    }
}

proof fn lemma_single_line_concat(a: Seq<char>, b: Seq<char>)
    requires
        single_line(a),
        single_line(b),
    ensures
        single_line(a + b),
{
    assert forall|i: int| 0 <= i < (a + b).len() implies !is_control(#[trigger] (a + b)[i]) && (is_space((a + b)[i]) ==> (a + b)[i] == ' ') by {
        if i < a.len() {
            assert((a + b)[i] == a[i]);
        } else {
            assert((a + b)[i] == b[i - a.len()]);
        }
    }
}

/// Every edit keeps the buffer well formed, and keeps its text and its kill
/// buffer free of control characters and of white space other than spaces.
pub proof fn law_edit_keeps_single_line(v: InputView, e: TerminalEvent)
    requires
        v.wf(),
        single_line(v.text),
        single_line(v.killed),
    ensures
        v.edited(e).wf(),
        single_line(v.edited(e).text),
        single_line(v.edited(e).killed),
{
    let t = v.text;
    let c = v.cursor;
    lemma_word_start_bounds(t, c);
    lemma_word_end_bounds(t, c);
    lemma_single_line_subrange(t, 0, c);
    lemma_single_line_subrange(t, c, t.len() as int);
    assert(t.take(c) =~= t.subrange(0, c));
    assert(t.skip(c) =~= t.subrange(c, t.len() as int));
    let ins = match e {
        TerminalEvent::Character(ch) => seq![ch],
        TerminalEvent::Paste(p) => p@,
        _ => v.killed,
    };
    lemma_clean_single_line(ins);
    lemma_single_line_concat(t.take(c), clean(ins));
    lemma_single_line_concat(t.take(c) + clean(ins), t.skip(c));
    let (start, end) = match e {
        TerminalEvent::Backspace => (v.previous(), c),
        TerminalEvent::Delete => (c, v.next()),
        TerminalEvent::KillWord => (word_start(t, c), c),
        TerminalEvent::KillStart => (0, c),
        _ => (c, t.len() as int),
    };
    if 0 <= start <= end <= t.len() {
        lemma_single_line_subrange(t, 0, start);
        lemma_single_line_subrange(t, end, t.len() as int);
        lemma_single_line_subrange(t, start, end);
        assert(t.take(start) =~= t.subrange(0, start));
        assert(t.skip(end) =~= t.subrange(end, t.len() as int));
        lemma_single_line_concat(t.take(start), t.skip(end));
    }
}

/// Movement changes neither the text nor the kill buffer.
pub proof fn law_movement_keeps_text(v: InputView, e: TerminalEvent)
    requires
        !is_text_edit(e),
    ensures
        v.edited(e).text == v.text,
        v.edited(e).killed == v.killed,
{
}

/// Right undoes Left, and Left undoes Right, away from the ends.
pub proof fn law_left_right_inverse(v: InputView)
    requires
        v.wf(),
    ensures
        v.cursor > 0 ==> v.edited(TerminalEvent::Left).edited(TerminalEvent::Right).cursor == v.cursor,
        v.cursor < v.text.len() ==> v.edited(TerminalEvent::Right).edited(TerminalEvent::Left).cursor
            == v.cursor,
{
}

/// A kill followed by a yank restores the text; after a kill of the word
/// or of the start, it restores the cursor too.
pub proof fn law_kill_then_yank_restores(v: InputView, e: TerminalEvent)
    requires
        v.wf(),
        single_line(v.text),
        e == TerminalEvent::KillWord && word_start(v.text, v.cursor) < v.cursor || e
            == TerminalEvent::KillStart && 0 < v.cursor || e == TerminalEvent::KillEnd && v.cursor
            < v.text.len(),
    ensures
        v.edited(e).edited(TerminalEvent::Yank).text == v.text,
        e != TerminalEvent::KillEnd ==> v.edited(e).edited(TerminalEvent::Yank).cursor == v.cursor,
        e == TerminalEvent::KillEnd ==> v.edited(e).edited(TerminalEvent::Yank).cursor == v.text.len(),
{
    let t = v.text;
    let c = v.cursor;
    lemma_word_start_bounds(t, c);
    let start = if e == TerminalEvent::KillWord {
        word_start(t, c)
    } else if e == TerminalEvent::KillStart {
        0
    } else {
        c
    };
    let end = if e == TerminalEvent::KillEnd {
        t.len() as int
    } else {
        c
    };
    let k = v.edited(e);
    assert(k == v.removed(start, end, true));
    lemma_single_line_subrange(t, start, end);
    lemma_clean_single_line_fixed(t.subrange(start, end));
    assert(k.text.take(start) =~= t.take(start));
    assert(k.text.skip(start) =~= t.skip(end));
    assert(t.take(start) + t.subrange(start, end) + t.skip(end) =~= t);
}

/// Encoding of a prefix is the matching prefix of the encoding.
proof fn lemma_take_encode(t: Seq<char>, k: int)
    requires
        0 < k <= t.len(),
    ensures
        encode_utf8(t.take(k)) == encode_scalar(t[0] as u32) + encode_utf8(t.drop_first().take(k - 1)),
{
    assert(t.take(k).drop_first() =~= t.drop_first().take(k - 1));
    assert(t.take(k)[0] == t[0]);
}

/// The byte offset of the cursor always lies on a character boundary of
/// the UTF-8 text.
pub proof fn law_cursor_on_char_boundary(t: Seq<char>, k: int)
    requires
        0 <= k <= t.len(),
    ensures
        is_char_boundary(encode_utf8(t), byte_len(t.take(k)) as int),
    decreases k,
{
    encode_utf8_valid_utf8(t);
    if k == 0 {
        assert(t.take(0) =~= Seq::<char>::empty());
        assert(encode_utf8(Seq::<char>::empty()) =~= Seq::<u8>::empty());
    } else {
        let bytes = encode_utf8(t);
        encode_utf8_first_scalar(t);
        assert(pop_first_scalar(bytes) =~= encode_utf8(t.drop_first()));
        lemma_take_encode(t, k);
        law_cursor_on_char_boundary(t.drop_first(), k - 1);
        lemma_prefix_byte_len_monotone(t, k);
    }
}

/// Whether a character stays when text enters the buffer: white space and
/// everything but the other control characters.
pub open spec fn kept(c: char) -> bool {
    is_space(c) || !is_control(c)
}

/// What a character that stays becomes: a space for white space, else
/// itself.
pub open spec fn entered(c: char) -> char {
    if is_space(c) {
        ' '
    } else {
        c
    }
}

/// `s` with each CR LF pair replaced by a line feed (as
/// `str::replace("\r\n", "\n")`).
pub open spec fn crlf_to_lf(s: Seq<char>) -> Seq<char>
    decreases s.len(),
{
    if s.len() == 0 {
        Seq::empty()
    } else if s.len() >= 2 && s[0] == '\r' && s[1] == '\n' {
        seq!['\n'] + crlf_to_lf(s.skip(2))
    } else {
        seq![s[0]] + crlf_to_lf(s.skip(1))
    }
}

/// Text enters the buffer as the CR LF pairs replaced by line feeds, then
/// each character on its own: white space becomes a space and the other
/// control characters are dropped.
pub proof fn law_clean_maps_each_character(s: Seq<char>)
    ensures
        clean(s) == crlf_to_lf(s).filter(|c: char| kept(c)).map_values(|c: char| entered(c)),
    decreases s.len(),
{
    broadcast use Seq::filter_distributes_over_add;

    if s.len() > 0 {
        let p = |c: char| kept(c);
        let n: int = if s.len() >= 2 && s[0] == '\r' && s[1] == '\n' {
            2
        } else {
            1
        };
        let head: char = if n == 2 {
            '\n'
        } else {
            s[0]
        };
        let rest = s.skip(n);
        law_clean_maps_each_character(rest);
        assert(crlf_to_lf(s) == seq![head] + crlf_to_lf(rest));
        assert(seq![head].drop_last() =~= Seq::<char>::empty());
        reveal_with_fuel(Seq::filter, 2);
        assert((seq![head] + crlf_to_lf(rest)).filter(p) == seq![head].filter(p) + crlf_to_lf(rest).filter(
            p,
        ));
        assert(is_space('\n'));
        assert(clean(s) =~= crlf_to_lf(s).filter(p).map_values(|c: char| entered(c)));
    }
}

} // verus!
