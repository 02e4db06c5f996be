//! The prompt history: its file format, and what its picker shows.

use vstd::prelude::*;
use vstd::utf8::*;

use crate::session::HistoryStyle;
use crate::text::{concat_str, contains_str, decimal, decimal_string, replace_all, replaced, strs};
use crate::utf8::decode_text;

verus! {

/// Reading bytes left to right: the entries completed so far, and the
/// bytes of the entry under way. A zero byte ends an entry; empty entries
/// are dropped.
pub open spec fn scan(bytes: Seq<u8>) -> (Seq<Seq<u8>>, Seq<u8>)
    decreases bytes.len(),
{
    if bytes.len() == 0 {
        (Seq::empty(), Seq::empty())
    } else {
        let (done, current) = scan(bytes.drop_last());
        if bytes.last() == 0 {
            (
                if current.len() > 0 {
                    done.push(current)
                } else {
                    done
                },
                Seq::empty(),
            )
        } else {
            (done, current.push(bytes.last()))
        }
    }
}

/// The non-empty runs of bytes between zero bytes, in order.
pub open spec fn entries(bytes: Seq<u8>) -> Seq<Seq<u8>> {
    let (done, current) = scan(bytes);
    if current.len() > 0 {
        done.push(current)
    } else {
        done
    }
}

/// The prompts in a history file: each entry read as UTF-8, or nothing
/// when some entry is not UTF-8.
pub open spec fn prompts_in(bytes: Seq<u8>) -> Option<Seq<Seq<char>>> {
    if forall|i: int| 0 <= i < entries(bytes).len() ==> valid_utf8(#[trigger] entries(bytes)[i]) {
        Some(entries(bytes).map_values(|e: Seq<u8>| decode_utf8(e)))
    } else {
        None
    }
}

/// Why a history file could not be read.
#[derive(Clone, Debug, PartialEq, Eq)]
pub enum HistoryError {
    /// An entry is not UTF-8, with the cause.
    InvalidText(String),
}

impl HistoryError {
    /// The message shown for this error.
    pub fn message(&self) -> (r: String)
        ensures
            self matches HistoryError::InvalidText(c) && r@ == crate::provider::with_cause(
                "prompt history contains invalid UTF-8"@,
                c@,
            ),
    {
        match self {
            HistoryError::InvalidText(cause) => crate::provider::append_cause(
                "prompt history contains invalid UTF-8",
                cause.as_str(),
            ),
        }
    }
}

fn split_entries(bytes: &Vec<u8>) -> (r: Vec<Vec<u8>>)
    ensures
        r@.len() == entries(bytes@).len(),
        forall|i: int| 0 <= i < r@.len() ==> (#[trigger] r@[i])@ == entries(bytes@)[i],
{
    let mut done: Vec<Vec<u8>> = Vec::new();
    let mut current: Vec<u8> = Vec::new();
    let mut i: usize = 0;
    while i < bytes.len()
        invariant
            i <= bytes@.len(),
            done@.len() == scan(bytes@.take(i as int)).0.len(),
            forall|j: int| 0 <= j < done@.len() ==> (#[trigger] done@[j])@ == scan(bytes@.take(i as int)).0[j],
            current@ == scan(bytes@.take(i as int)).1,
        decreases bytes@.len() - i,
    {
        assert(bytes@.take(i + 1).drop_last() =~= bytes@.take(i as int));
        assert(bytes@.take(i + 1).last() == bytes@[i as int]);
        if bytes[i] == 0 {
            if current.len() > 0 {
                done.push(current);
            }
            current = Vec::new();
        } else {
            current.push(bytes[i]);
        }
        i = i + 1;
    }
    assert(bytes@.take(bytes@.len() as int) =~= bytes@);
    if current.len() > 0 {
        done.push(current);
    }
    done
}

/// The prompts stored in a history file's bytes: the non-empty entries
/// between zero bytes, each read as UTF-8.
pub fn parse_history(bytes: &Vec<u8>) -> (r: Result<Vec<String>, HistoryError>)
    ensures
        match prompts_in(bytes@) {
            Some(ps) => r is Ok && strs(r->Ok_0@) == ps,
            None => r is Err,
        },
{
    let pieces = split_entries(bytes);
    let mut out: Vec<String> = Vec::new();
    let mut i: usize = 0;
    while i < pieces.len()
        invariant
            i <= pieces@.len() == entries(bytes@).len(),
            forall|j: int| 0 <= j < pieces@.len() ==> (#[trigger] pieces@[j])@ == entries(bytes@)[j],
            out@.len() == i,
            forall|j: int| 0 <= j < i ==> valid_utf8(#[trigger] entries(bytes@)[j]),
            forall|j: int| 0 <= j < i ==> (#[trigger] out@[j])@ == decode_utf8(entries(bytes@)[j]),
        decreases pieces@.len() - i,
    {
        let piece = pieces[i].clone();
        match decode_text(piece) {
            Ok(text) => {
                out.push(text);
            },
            Err(cause) => {
                return Err(HistoryError::InvalidText(cause));
            },
        }
        i = i + 1;
    }
    proof {
        crate::session::lemma_strs(out@);
        assert(strs(out@) =~= entries(bytes@).map_values(|e: Seq<u8>| decode_utf8(e)));
    }
    Ok(out)
}

/// Whether `prompt` is already in the history; a prompt is stored once.
pub fn is_recorded(history: &Vec<String>, prompt: &str) -> (r: bool)
    ensures
        r == strs(history@).contains(prompt@),
{
    contains_str(history, prompt)
}

/// The bytes that store a prompt: its UTF-8 encoding and a zero byte.
pub open spec fn record_of(prompt: Seq<char>) -> Seq<u8> {
    encode_utf8(prompt).push(0)
}

/// The bytes appended to the history file to store `prompt`.
pub fn record_bytes(prompt: &str) -> (r: Vec<u8>)
    ensures
        r@ == record_of(prompt@),
{
    let b = prompt.as_bytes();
    let mut r: Vec<u8> = Vec::new();
    let mut i: usize = 0;
    while i < b.len()
        invariant
            i <= b@.len(),
            b@ == encode_utf8(prompt@),
            r@ == b@.take(i as int),
        decreases b@.len() - i,
    {
        r.push(b[i]);
        i = i + 1;
        assert(r@ =~= b@.take(i as int));
    }
    assert(b@.take(b@.len() as int) =~= b@);
    r.push(0);
    r
}

/// The history file that storing `prompts` in turn writes.
pub open spec fn history_file(prompts: Seq<Seq<char>>) -> Seq<u8>
    decreases prompts.len(),
{
    if prompts.len() == 0 {
        Seq::empty()
    } else {
        history_file(prompts.drop_last()) + record_of(prompts.last())
    }
}

/// The UTF-8 encoding of a character other than U+0000 holds no zero byte.
proof fn lemma_scalar_has_no_zero(c: char, k: int)
    requires
        c != '\0',
        0 <= k < encode_scalar(c as u32).len(),
    ensures
        encode_scalar(c as u32)[k] != 0,
{
    let v = c as u32;
    char_is_scalar(c);
    if has_width_1_encoding(v) {
        assert(v != 0);
        assert(0 < v <= 0x7f ==> (v & 0x7f) as u8 != 0) by (bit_vector);
    } else {
        let b = encode_scalar(v)[k];
        assert(forall|x: u8| #![auto] (0xC0u8 | x) != 0) by (bit_vector);
        assert(forall|x: u8| #![auto] (0xE0u8 | x) != 0) by (bit_vector);
        assert(forall|x: u8| #![auto] (0xF0u8 | x) != 0) by (bit_vector);
        assert(forall|x: u8| #![auto] (0x80u8 | x) != 0) by (bit_vector);
    }
}

/// Text without U+0000 encodes without a zero byte.
proof fn lemma_encoding_has_no_zero(s: Seq<char>)
    requires
        !s.contains('\0'),
    ensures
        forall|k: int| 0 <= k < encode_utf8(s).len() ==> #[trigger] encode_utf8(s)[k] != 0,
    decreases s.len(),
{
    if s.len() > 0 {
        lemma_encoding_has_no_zero(s.drop_first());
        let head = encode_scalar(s[0] as u32);
        let tail = encode_utf8(s.drop_first());
        assert(encode_utf8(s) == head + tail);
        assert forall|k: int| 0 <= k < encode_utf8(s).len() implies #[trigger] encode_utf8(s)[k] != 0 by {
            if k < head.len() {
                assert(s[0] != '\0');
                lemma_scalar_has_no_zero(s[0], k);
            } else {
                assert(encode_utf8(s)[k] == tail[k - head.len()]);
                assert(s.drop_first().contains('\0') ==> s.contains('\0'));
            }
        }
    }
}

/// Reading on through bytes without a zero adds them to the entry under
/// way.
proof fn lemma_scan_run(prefix: Seq<u8>, run: Seq<u8>)
    requires
        forall|k: int| 0 <= k < run.len() ==> #[trigger] run[k] != 0,
    ensures
        scan(prefix + run) == (scan(prefix).0, scan(prefix).1 + run),
    decreases run.len(),
{
    if run.len() == 0 {
        assert(prefix + run =~= prefix);
        assert(scan(prefix).1 + run =~= scan(prefix).1);
    } else {
        let shorter = run.drop_last();
        lemma_scan_run(prefix, shorter);
        assert((prefix + run).drop_last() =~= prefix + shorter);
        assert((prefix + run).last() == run.last());
        assert(scan(prefix).1 + shorter + seq![run.last()] =~= scan(prefix).1 + run);
    }
}

/// Storing prompts one after another leaves them, in order, as the
/// completed entries, with no entry under way.
proof fn lemma_scan_history(prompts: Seq<Seq<char>>)
    requires
        forall|i: int| 0 <= i < prompts.len() ==> (#[trigger] prompts[i]).len() > 0 && !prompts[i].contains('\0'),
    ensures
        scan(history_file(prompts)).0 == prompts.map_values(|p: Seq<char>| encode_utf8(p)),
        scan(history_file(prompts)).1.len() == 0,
    decreases prompts.len(),
{
    if prompts.len() > 0 {
        let front = prompts.drop_last();
        let p = prompts.last();
        assert forall|i: int| 0 <= i < front.len() implies (#[trigger] front[i]).len() > 0 && !front[i].contains('\0') by {
            assert(front[i] == prompts[i]);
        }
        lemma_scan_history(front);
        let before = history_file(front);
        let e = encode_utf8(p);
        lemma_encoding_has_no_zero(p);
        lemma_scan_run(before, e);
        assert(history_file(prompts) == (before + e).push(0));
        assert(history_file(prompts).drop_last() =~= before + e);
        assert(e.len() > 0) by {
            assert(encode_scalar(p[0] as u32).len() > 0);
        }
        assert(scan(before).1 + e =~= e);
        assert(prompts.map_values(|q: Seq<char>| encode_utf8(q)) =~= front.map_values(
            |q: Seq<char>| encode_utf8(q),
        ).push(e));
    }
}

/// Reading back a history file gives the prompts stored in it, in the
/// order they were stored, provided each is non-empty and holds no U+0000
/// (which the file format uses to end an entry).
pub proof fn law_history_round_trip(prompts: Seq<Seq<char>>)
    requires
        forall|i: int| 0 <= i < prompts.len() ==> (#[trigger] prompts[i]).len() > 0 && !prompts[i].contains('\0'),
    ensures
        prompts_in(history_file(prompts)) == Some(prompts),
{
    broadcast use encode_utf8_valid_utf8, encode_utf8_decode_utf8;

    lemma_scan_history(prompts);
    let es = entries(history_file(prompts));
    assert(es == prompts.map_values(|p: Seq<char>| encode_utf8(p)));
    assert forall|i: int| 0 <= i < es.len() implies valid_utf8(#[trigger] es[i]) by {
        assert(es[i] == encode_utf8(prompts[i]));
    }
    assert(es.map_values(|e: Seq<u8>| decode_utf8(e)) =~= prompts) by {
        assert forall|i: int| 0 <= i < prompts.len() implies es.map_values(|e: Seq<u8>| decode_utf8(e))[i]
            == prompts[i] by {
            assert(es[i] == encode_utf8(prompts[i]));
        }
    }
}

/// What recording `prompt` appends to a history file that holds `history`:
/// nothing when the prompt is already there, else its record.
pub fn record_addition(history: &Vec<String>, prompt: &str) -> (r: Option<Vec<u8>>)
    ensures
        strs(history@).contains(prompt@) ==> r is None,
        !strs(history@).contains(prompt@) ==> (r matches Some(b) && b@ == record_of(prompt@)),
{
    if is_recorded(history, prompt) {
        None
    } else {
        Some(record_bytes(prompt))
    }
}

/// Appending the record of a prompt to a readable history file, which
/// holds no entry under way (it is empty or ends with a zero byte), adds
/// the prompt after the ones it held; the prompt must be non-empty and hold
/// no U+0000.
pub proof fn law_recording_adds_the_prompt(bytes: Seq<u8>, history: Seq<Seq<char>>, prompt: Seq<char>)
    requires
        prompts_in(bytes) == Some(history),
        bytes.len() == 0 || bytes.last() == 0,
        prompt.len() > 0,
        !prompt.contains('\0'),
    ensures
        prompts_in(bytes + record_of(prompt)) == Some(history.push(prompt)),
{
    broadcast use encode_utf8_valid_utf8, encode_utf8_decode_utf8;

    let e = encode_utf8(prompt);
    lemma_encoding_has_no_zero(prompt);
    assert(e.len() > 0) by {
        assert(encode_scalar(prompt[0] as u32).len() > 0);
    }
    assert(scan(bytes).1.len() == 0) by {
        if bytes.len() > 0 {
            assert(bytes.last() == 0);
        }
    }
    lemma_scan_run(bytes, e);
    let all = bytes + record_of(prompt);
    assert(all.drop_last() =~= bytes + e);
    assert(all.last() == 0);
    assert(scan(bytes).1 + e =~= e);
    let old_entries = entries(bytes);
    assert(old_entries == scan(bytes).0);
    assert(scan(all).0 == old_entries.push(e));
    assert(entries(all) == old_entries.push(e));
    assert forall|i: int| 0 <= i < entries(all).len() implies valid_utf8(#[trigger] entries(all)[i]) by {
        if i < old_entries.len() {
            assert(entries(all)[i] == old_entries[i]);
        }
    }
    assert(entries(all).map_values(|x: Seq<u8>| decode_utf8(x)) =~= history.push(prompt)) by {
        assert(old_entries.map_values(|x: Seq<u8>| decode_utf8(x)) == history);
        assert forall|i: int| 0 <= i < history.len() implies entries(all).map_values(|x: Seq<u8>| decode_utf8(x))[i]
            == history[i] by {
            assert(entries(all)[i] == old_entries[i]);
            assert(old_entries.map_values(|x: Seq<u8>| decode_utf8(x))[i] == decode_utf8(old_entries[i]));
        }
    }
}

/// A stored prompt as the picker shows it: each line break as ` ↵ `.
pub open spec fn display_text(prompt: Seq<char>) -> Seq<char> {
    replaced(prompt, seq!['\n'], " ↵ "@)
}

/// A stored prompt in the history picker.
#[derive(Clone, Debug, PartialEq, Eq)]
pub struct PromptItem {
    value: String,
    display: String,
}

impl PromptItem {
    /// The shown text.
    pub closed spec fn shown(&self) -> Seq<char> {
        self.display@
    }

    /// The prompt itself.
    pub closed spec fn prompt(&self) -> Seq<char> {
        self.value@
    }

    /// The picker entry for `value`.
    pub fn new(value: String) -> (r: PromptItem)
        ensures
            r.prompt() == value@,
            r.shown() == display_text(value@),
    {
        proof {
            reveal_strlit("\n");
        }
        let display = replace_all(value.as_str(), "\n", " ↵ ");
        assert("\n"@ =~= seq!['\n']);
        PromptItem { display, value }
    }

    /// What the picker shows and matches against.
    pub fn text(&self) -> (r: &str)
        ensures
            r@ == self.shown(),
    {
        self.display.as_str()
    }

    /// What choosing the entry gives.
    pub fn output(&self) -> (r: &str)
        ensures
            r@ == self.prompt(),
    {
        self.value.as_str()
    }
}

/// The picker entries, the most recent prompt first.
pub fn picker_items(prompts: &Vec<String>) -> (r: Vec<PromptItem>)
    ensures
        r@.len() == prompts@.len(),
        forall|i: int|
            0 <= i < r@.len() ==> (#[trigger] r@[i]).prompt() == prompts@[prompts@.len() - 1 - i]@
                && r@[i].shown() == display_text(prompts@[prompts@.len() - 1 - i]@),
{
    let mut out: Vec<PromptItem> = Vec::new();
    let mut k: usize = prompts.len();
    while k > 0
        invariant
            k <= prompts@.len(),
            out@.len() == prompts@.len() - k,
            forall|i: int|
                0 <= i < out@.len() ==> (#[trigger] out@[i]).prompt() == prompts@[prompts@.len() - 1
                    - i]@ && out@[i].shown() == display_text(prompts@[prompts@.len() - 1 - i]@),
        decreases k,
    {
        k = k - 1;
        out.push(PromptItem::new(prompts[k].clone()));
    }
    out
}

/// How many rows the picker takes.
pub fn height() -> (r: &'static str)
    ensures
        r@ == "10"@,
{
    "10"
}

/// One `part:color` entry of the picker's color option.
pub open spec fn color_entry(part: Seq<char>, color: Option<u8>) -> Seq<Seq<char>> {
    match color {
        Some(c) => seq![part + seq![':'] + decimal(c as nat)],
        None => Seq::empty(),
    }
}

/// The picker's color entries for the parts that have a color, in the
/// order prompt, query, text, match, current line, current match.
pub open spec fn color_entries(style: HistoryStyle) -> Seq<Seq<char>> {
    color_entry("prompt"@, style.prompt) + color_entry("query"@, style.input) + color_entry(
        "fg"@,
        style.item,
    ) + color_entry("matched"@, style.matched) + color_entry("current"@, style.active)
        + color_entry("current_match"@, style.active_match)
}

/// The entries joined by commas.
pub open spec fn comma_joined(entries: Seq<Seq<char>>) -> Seq<char>
    decreases entries.len(),
{
    if entries.len() == 0 {
        Seq::empty()
    } else if entries.len() == 1 {
        entries[0]
    } else {
        comma_joined(entries.drop_last()) + seq![','] + entries.last()
    }
}

fn add_color(entries: &mut Vec<String>, part: &str, color: Option<u8>)
    ensures
        strs(final(entries)@) == strs(old(entries)@) + color_entry(part@, color),
{
    match color {
        Some(c) => {
            let mut e = part.to_owned();
            crate::text::push_char(&mut e, ':');
            let e = concat_str(e.as_str(), decimal_string(c as u64).as_str());
            assert(e@ =~= part@ + seq![':'] + decimal(c as nat));
            let ghost before = entries@;
            entries.push(e);
            proof {
                crate::session::lemma_strs(before);
                crate::session::lemma_strs(entries@);
                assert(strs(entries@) =~= strs(before) + color_entry(part@, color));
            }
        },
        None => {
            assert(strs(entries@) =~= strs(entries@) + color_entry(part@, color));
        },
    }
}

/// The picker's color option, when some part has a color.
pub fn picker_colors(style: &HistoryStyle) -> (r: Option<String>)
    ensures
        color_entries(*style).len() == 0 ==> r is None,
        color_entries(*style).len() > 0 ==> (r matches Some(s) && s@ == comma_joined(
            color_entries(*style),
        )),
{
    let mut entries: Vec<String> = Vec::new();
    add_color(&mut entries, "prompt", style.prompt);
    add_color(&mut entries, "query", style.input);
    add_color(&mut entries, "fg", style.item);
    add_color(&mut entries, "matched", style.matched);
    add_color(&mut entries, "current", style.active);
    add_color(&mut entries, "current_match", style.active_match);
    proof {
        crate::session::lemma_strs(entries@);
        assert(strs(entries@) =~= color_entries(*style));
    }
    if entries.len() == 0 {
        return None;
    }
    Some(join_commas(&entries))
}

fn join_commas(words: &Vec<String>) -> (r: String)
    ensures
        r@ == comma_joined(strs(words@)),
{
    let mut out = String::new();
    let mut i: usize = 0;
    while i < words.len()
        invariant
            i <= words@.len(),
            out@ == comma_joined(strs(words@).take(i as int)),
        decreases words@.len() - i,
    {
        proof {
            crate::session::lemma_strs(words@);
            assert(strs(words@).take(i + 1).drop_last() =~= strs(words@).take(i as int));
        }
        if i == 0 {
            out = words[0].clone();
            assert(strs(words@).take(1) =~= seq![words@[0]@]);
        } else {
            let mut with_comma = out;
            crate::text::push_char(&mut with_comma, ',');
            out = concat_str(with_comma.as_str(), words[i].as_str());
        }
        i = i + 1;
    }
    assert(strs(words@).take(words@.len() as int) =~= strs(words@));
    out
}

} // verus!
