//! What the session writes to the terminal: control sequences from
//! `crossterm`, the request line, and the cursor column by display width.

use vstd::prelude::*;

use crate::session::{MenuStyle, RenderFrame};
use crate::text::{chars_of, concat_str, decimal, push_char, string_of};
use crate::theme::{colored_text, item_text, write_color};
use crate::wrap::{
    cursor_at, end_of, room, room_of, rows_of, shown_cells, shown_text, window, window_of, wrap_cells,
};

verus! {

/// Writes `crossterm::cursor::SavePosition` as ANSI text; its source writes
/// `ESC 7`.
#[verifier::external_body]
fn save_position() -> (r: String)
    ensures
        r@ == seq!['\x1b', '7'],
{
    let mut s = String::new();
    let _ = crossterm::Command::write_ansi(&crossterm::cursor::SavePosition, &mut s);
    s
}

/// Writes `crossterm::cursor::RestorePosition` as ANSI text; its source
/// writes `ESC 8`.
#[verifier::external_body]
fn restore_position() -> (r: String)
    ensures
        r@ == seq!['\x1b', '8'],
{
    let mut s = String::new();
    let _ = crossterm::Command::write_ansi(&crossterm::cursor::RestorePosition, &mut s);
    s
}

/// Writes `crossterm::terminal::Clear(ClearType::FromCursorDown)` as ANSI
/// text; its source writes `ESC [ J`.
#[verifier::external_body]
fn clear_below() -> (r: String)
    ensures
        r@ == seq!['\x1b', '[', 'J'],
{
    let mut s = String::new();
    let _ = crossterm::Command::write_ansi(
        &crossterm::terminal::Clear(crossterm::terminal::ClearType::FromCursorDown),
        &mut s,
    );
    s
}

/// Writes `crossterm::event::EnableBracketedPaste` as ANSI text; its source
/// writes `ESC [ ? 2004 h`.
#[verifier::external_body]
fn enable_bracketed_paste() -> (r: String)
    ensures
        r@ == "\x1b[?2004h"@,
{
    let mut s = String::new();
    let _ = crossterm::Command::write_ansi(&crossterm::event::EnableBracketedPaste, &mut s);
    s
}

/// Writes `crossterm::event::DisableBracketedPaste` as ANSI text; its
/// source writes `ESC [ ? 2004 l`.
#[verifier::external_body]
fn disable_bracketed_paste() -> (r: String)
    ensures
        r@ == "\x1b[?2004l"@,
{
    let mut s = String::new();
    let _ = crossterm::Command::write_ansi(&crossterm::event::DisableBracketedPaste, &mut s);
    s
}

/// Writes `crossterm::cursor::MoveRight(columns)` as ANSI text; its source
/// writes `ESC [`, the count in decimal, and `C`.
#[verifier::external_body]
fn move_right(columns: u16) -> (r: String)
    ensures
        r@ == "\x1b["@ + decimal(columns as nat) + "C"@,
{
    let mut s = String::new();
    let _ = crossterm::Command::write_ansi(&crossterm::cursor::MoveRight(columns), &mut s);
    s
}

/// Writes `crossterm::cursor::MoveUp(rows)` as ANSI text; its source
/// writes `ESC [`, the count in decimal, and `A`.
#[verifier::external_body]
fn move_up(rows: u16) -> (r: String)
    ensures
        r@ == "\x1b["@ + decimal(rows as nat) + "A"@,
{
    let mut s = String::new();
    let _ = crossterm::Command::write_ansi(&crossterm::cursor::MoveUp(rows), &mut s);
    s
}

/// Writes `crossterm::cursor::MoveDown(rows)` as ANSI text; its source
/// writes `ESC [`, the count in decimal, and `B`.
#[verifier::external_body]
fn move_down(rows: u16) -> (r: String)
    ensures
        r@ == "\x1b["@ + decimal(rows as nat) + "B"@,
{
    let mut s = String::new();
    let _ = crossterm::Command::write_ansi(&crossterm::cursor::MoveDown(rows), &mut s);
    s
}

/// The columns a terminal gives `text`, as `unicode-width` computes it from
/// the Unicode width tables; it depends on the text alone.
pub uninterp spec fn display_width(text: Seq<char>) -> usize;

/// Calls `UnicodeWidthStr::width` on `text`.
#[verifier::external_body]
fn text_width(text: &str) -> (r: usize)
    ensures
        r == display_width(text@),
{
    unicode_width::UnicodeWidthStr::width(text)
}

/// The columns a terminal gives character `c`, as `unicode-width` computes
/// it from the Unicode width tables, or `None` for a control character; it
/// depends on the character alone.
pub uninterp spec fn char_columns(c: char) -> Option<usize>;

/// Calls `UnicodeWidthChar::width` on `c`.
#[verifier::external_body]
fn char_width(c: char) -> (r: Option<usize>)
    ensures
        r == char_columns(c),
{
    unicode_width::UnicodeWidthChar::width(c)
}

/// The columns a character of the request line takes; none for a control
/// character.
pub open spec fn cell_width(c: char) -> usize {
    match char_columns(c) {
        Some(w) => w,
        None => 0,
    }
}

/// The columns each character of `cs` takes.
pub open spec fn cell_widths(cs: Seq<char>) -> Seq<usize> {
    Seq::new(cs.len(), |i: int| cell_width(cs[i]))
}

/// A terminal's size, and the column where the request line starts.
#[derive(Clone, Copy, Debug, PartialEq, Eq)]
pub struct Screen {
    pub columns: u16,
    pub rows: u16,
    pub start_column: u16,
}

/// The columns of a row; a screen that reports none is taken as one column.
pub open spec fn screen_width(screen: Screen) -> nat {
    if screen.columns == 0 {
        1
    } else {
        screen.columns as nat
    }
}

/// `text` in `color`, when there is any text.
pub open spec fn segment(text: Seq<char>, color: Option<u8>) -> Seq<char> {
    if text.len() > 0 {
        colored_text(text, color)
    } else {
        Seq::empty()
    }
}

/// `n` line feeds.
pub open spec fn line_feeds(n: nat) -> Seq<char> {
    Seq::new(n, |i: int| '\n')
}

/// What makes room for `below` more rows under the saved cursor: back to
/// it, down `below` rows (the screen scrolls when they are not there), up
/// again, and the cursor saved where it now is.
pub open spec fn reserve_text(below: nat) -> Seq<char> {
    seq!['\x1b', '8'] + (if below > 0 {
        line_feeds(below) + "\x1b["@ + decimal(below) + "A"@
    } else {
        Seq::empty()
    }) + seq!['\x1b', '7']
}

/// Where drawing `frame` on `screen` puts things: the first row shown, how
/// many rows are shown, and the cursor's row and column.
pub open spec fn frame_layout(frame: RenderFrame, screen: Screen) -> (nat, nat, nat, nat) {
    let ws = cell_widths(frame.prefix@ + frame.input@);
    let width = screen_width(screen);
    let start = screen.start_column as nat;
    let cursor = cursor_at(ws, frame.prefix@.len() + frame.cursor, start, width);
    let end = end_of(ws, start, width).0;
    let last = if end < cursor.0 {
        cursor.0
    } else {
        end
    };
    let shown = window(last, cursor.0, room(screen.rows as nat, frame.error is Some));
    (shown.0, shown.1, cursor.0, cursor.1)
}

/// The rows below the first one shown that a frame takes: the other rows
/// shown, and one for the error.
pub open spec fn rows_below(frame: RenderFrame, screen: Screen) -> nat {
    let count = frame_layout(frame, screen).1;
    if frame.error is Some {
        count
    } else {
        (count - 1) as nat
    }
}

/// The error of a frame on the row below, in its color.
pub open spec fn error_text(frame: RenderFrame) -> Seq<char> {
    match frame.error {
        Some(e) => "\r\n"@ + colored_text(e@, frame.error_color),
        None => Seq::empty(),
    }
}

/// What puts the cursor `down` rows below the saved cursor, `column`
/// columns from the row's start.
pub open spec fn cursor_text(down: nat, column: nat) -> Seq<char> {
    seq!['\x1b', '8'] + "\r"@ + (if down > 0 {
        "\x1b["@ + decimal(down) + "B"@
    } else {
        Seq::empty()
    }) + (if column > 0 {
        "\x1b["@ + decimal(column) + "C"@
    } else {
        Seq::empty()
    })
}

/// What drawing `frame` on `screen` writes, with long lines wrapped: room
/// for the rows shown and the error, then, from the saved cursor (from the
/// row's start when the first rows are left out), those rows in the
/// prompt's and the input's colors, the error on the row below, and the
/// cursor moved to its row and column.
pub open spec fn wrapped_frame_text(frame: RenderFrame, screen: Screen) -> Seq<char> {
    let cs = frame.prefix@ + frame.input@;
    let rows = rows_of(cell_widths(cs), screen.start_column as nat, screen_width(screen));
    let (first, count, row, column) = frame_layout(frame, screen);
    let p = frame.prefix@.len() as int;
    reserve_text(rows_below(frame, screen)) + (if first > 0 {
        "\r"@
    } else {
        Seq::empty()
    }) + seq!['\x1b', '[', 'J'] + segment(shown_text(cs, rows, first, count, 0, p), frame.prefix_color)
        + segment(shown_text(cs, rows, first, count, p, cs.len() as int), frame.input_color)
        + error_text(frame) + cursor_text((row - first) as nat, column)
}

/// What starting a session writes: save the cursor, so that only the
/// session's own lines are redrawn, and turn on bracketed paste.
pub open spec fn setup_text() -> Seq<char> {
    seq!['\x1b', '7'] + "\x1b[?2004h"@
}

/// What clearing the session's lines writes: back to the saved cursor, and
/// clear everything below it.
pub open spec fn clear_text() -> Seq<char> {
    seq!['\x1b', '8'] + seq!['\x1b', '[', 'J']
}

/// The text that starts an inline session.
pub fn setup_sequence() -> (r: String)
    ensures
        r@ == setup_text(),
{
    concat_str(save_position().as_str(), enable_bracketed_paste().as_str())
}

/// The text that clears an inline session's lines.
pub fn clear_sequence() -> (r: String)
    ensures
        r@ == clear_text(),
{
    concat_str(restore_position().as_str(), clear_below().as_str())
}

/// The text that turns bracketed paste off.
pub fn disable_paste_sequence() -> (r: String)
    ensures
        r@ == "\x1b[?2004l"@,
{
    disable_bracketed_paste()
}

/// The text that turns bracketed paste on.
pub fn enable_paste_sequence() -> (r: String)
    ensures
        r@ == "\x1b[?2004h"@,
{
    enable_bracketed_paste()
}

/// The first failure of the three restoring steps, in the order clear,
/// bracketed paste, raw mode.
pub open spec fn first_failure<E>(cleared: Result<(), E>, paste_disabled: Result<(), E>, raw_disabled: Result<(), E>) -> Result<(), E> {
    match cleared {
        Err(e) => Err(e),
        Ok(()) => match paste_disabled {
            Err(e) => Err(e),
            Ok(()) => raw_disabled,
        },
    }
}

/// Restores the terminal after a session: `write` is given the text that
/// clears the session's lines, then `write_again` the text that turns
/// bracketed paste off, then raw mode is left with `disable_raw`. Every step
/// is taken, whatever the others gave; the outcome is the first failure.
pub fn restore_terminal<E, W, V, D>(write: W, write_again: V, disable_raw: D) -> (r: Result<(), E>) where
    W: FnOnce(String) -> Result<(), E>,
    V: FnOnce(String) -> Result<(), E>,
    D: FnOnce() -> Result<(), E>,

    requires
        forall|t: String| write.requires((t,)),
        forall|t: String| write_again.requires((t,)),
        disable_raw.requires(()),
    ensures
        exists|clear: String, cleared: Result<(), E>, paste: String, paste_disabled: Result<(), E>, raw_disabled: Result<(), E>|
            #![trigger write.ensures((clear,), cleared), write_again.ensures((paste,), paste_disabled), disable_raw.ensures((), raw_disabled)]
            clear@ == clear_text() && write.ensures((clear,), cleared) && paste@ == "\x1b[?2004l"@
                && write_again.ensures((paste,), paste_disabled) && disable_raw.ensures((), raw_disabled)
                && r == first_failure(cleared, paste_disabled, raw_disabled),
{
    let clear = clear_sequence();
    let ghost clear_view = clear;
    let cleared = write(clear);
    let paste = disable_paste_sequence();
    let ghost paste_view = paste;
    let paste_disabled = write_again(paste);
    let raw_disabled = disable_raw();
    let r = match cleared {
        Err(e) => Err(e),
        Ok(()) => match paste_disabled {
            Err(e) => Err(e),
            Ok(()) => raw_disabled,
        },
    };
    assert(write.ensures((clear_view,), cleared) && write_again.ensures((paste_view,), paste_disabled)
        && disable_raw.ensures((), raw_disabled));
    r
}

/// Enters raw mode, then sets the terminal up; when setting up fails, raw
/// mode is left again before the failure is returned.
pub fn setup_with_raw_mode<T, E, A, D, S>(enable_raw: A, disable_raw: D, setup: S) -> (r: Result<T, E>) where
    A: FnOnce() -> Result<(), E>,
    D: FnOnce() -> Result<(), E>,
    S: FnOnce() -> Result<T, E>,

    requires
        enable_raw.requires(()),
        disable_raw.requires(()),
        setup.requires(()),
    ensures
        exists|entered: Result<(), E>|
            enable_raw.ensures((), entered) && match entered {
                Err(e) => r == Err::<T, E>(e),
                Ok(()) => setup.ensures((), r) && (r is Err ==> exists|left: Result<(), E>|
                    disable_raw.ensures((), left)),
            },
{
    match enable_raw() {
        Err(e) => {
            return Err(e);
        },
        Ok(()) => {},
    }
    let terminal = setup();
    if terminal.is_err() {
        let _ = disable_raw();
    }
    terminal
}

/// The columns before the cursor, `prefix_width` and `input_width`
/// together, kept to what a terminal column count holds.
pub open spec fn column(prefix_width: usize, input_width: usize) -> u16 {
    if prefix_width + input_width < 0xffff {
        (prefix_width + input_width) as u16
    } else {
        0xffffu16
    }
}

/// The cursor column from the display widths of the prompt and of the
/// input before the cursor.
pub fn column_of(prefix_width: usize, input_width: usize) -> (r: u16)
    ensures
        r == column(prefix_width, input_width),
{
    let total: u128 = prefix_width as u128 + input_width as u128;
    if total < 0xffff {
        total as u16
    } else {
        0xffffu16
    }
}

/// The cursor column of a frame: the display width of the prompt and of
/// the input before the cursor.
pub fn input_column(frame: &RenderFrame) -> (r: u16)
    requires
        frame.cursor <= frame.input@.len(),
    ensures
        r == column(display_width(frame.prefix@), display_width(frame.input@.take(frame.cursor as int))),
{
    let input = chars_of(frame.input.as_str());
    let mut before: Vec<char> = Vec::new();
    let mut i: usize = 0;
    while i < frame.cursor
        invariant
            i <= frame.cursor <= input@.len(),
            input@ == frame.input@,
            before@ == input@.take(i as int),
        decreases frame.cursor - i,
    {
        before.push(input[i]);
        i = i + 1;
        assert(before@ =~= input@.take(i as int));
    }
    let shown = string_of(&before);
    column_of(text_width(frame.prefix.as_str()), text_width(shown.as_str()))
}

/// What drawing a frame writes: clear the session's lines, the prompt and
/// (when there is any) the input in their colors, an error on the next
/// line, then the cursor back to the start and right to its column.
pub open spec fn frame_text(frame: RenderFrame) -> Seq<char> {
    clear_text() + colored_text(frame.prefix@, frame.prefix_color) + (if frame.input@.len() > 0 {
        colored_text(frame.input@, frame.input_color)
    } else {
        Seq::empty()
    }) + match frame.error {
        Some(e) => "\r\n"@ + colored_text(e@, frame.error_color),
        None => Seq::empty(),
    } + seq!['\x1b', '8'] + "\x1b["@ + decimal(
        column(display_width(frame.prefix@), display_width(frame.input@.take(frame.cursor as int)))
            as nat,
    ) + "C"@
}

/// The text that draws `frame`.
pub fn render_frame(frame: &RenderFrame) -> (r: String)
    requires
        frame.cursor <= frame.input@.len(),
    ensures
        r@ == frame_text(*frame),
{
    let mut out = clear_sequence();
    write_color(&mut out, frame.prefix.as_str(), frame.prefix_color);
    if chars_of(frame.input.as_str()).len() > 0 {
        write_color(&mut out, frame.input.as_str(), frame.input_color);
    }
    match &frame.error {
        Some(e) => {
            out = concat_str(out.as_str(), "\r\n");
            write_color(&mut out, e.as_str(), frame.error_color);
        },
        None => {},
    }
    out = concat_str(out.as_str(), restore_position().as_str());
    let column = input_column(frame);
    concat_str(out.as_str(), move_right(column).as_str())
}

/// The columns each character takes.
fn widths_of(cells: &Vec<char>) -> (r: Vec<usize>)
    ensures
        r@ == cell_widths(cells@),
{
    let mut widths: Vec<usize> = Vec::new();
    let mut i: usize = 0;
    while i < cells.len()
        invariant
            i <= cells@.len(),
            widths@ == cell_widths(cells@).take(i as int),
        decreases cells@.len() - i,
    {
        let w = match char_width(cells[i]) {
            Some(w) => w,
            None => 0,
        };
        widths.push(w);
        i = i + 1;
        assert(widths@ =~= cell_widths(cells@).take(i as int));
    }
    assert(cell_widths(cells@).take(i as int) =~= cell_widths(cells@));
    widths
}

/// Appends `text` in `color` when there is any text.
fn write_segment(out: &mut String, text: &str, color: Option<u8>)
    ensures
        final(out)@ == old(out)@ + segment(text@, color),
{
    if chars_of(text).len() > 0 {
        write_color(out, text, color);
    } else {
        assert(old(out)@ + segment(text@, color) =~= old(out)@);
    }
}

/// The text that makes room for `below` rows under the saved cursor.
fn reserve_rows(below: u16) -> (r: String)
    ensures
        r@ == reserve_text(below as nat),
{
    let mut out = restore_position();
    if below > 0 {
        let mut k: u16 = 0;
        while k < below
            invariant
                k <= below,
                out@ == seq!['\x1b', '8'] + line_feeds(k as nat),
            decreases below - k,
        {
            push_char(&mut out, '\n');
            k = k + 1;
            assert(out@ =~= seq!['\x1b', '8'] + line_feeds(k as nat));
        }
        out = concat_str(out.as_str(), move_up(below).as_str());
    } else {
        assert(out@ =~= seq!['\x1b', '8'] + Seq::empty());
    }
    concat_str(out.as_str(), save_position().as_str())
}

/// The text that puts the cursor in place.
fn cursor_moves(down: u16, column: u16) -> (r: String)
    ensures
        r@ == cursor_text(down as nat, column as nat),
{
    let mut out = restore_position();
    push_char(&mut out, '\r');
    proof {
        reveal_strlit("\r");
    }
    if down > 0 {
        out = concat_str(out.as_str(), move_down(down).as_str());
    }
    if column > 0 {
        out = concat_str(out.as_str(), move_right(column).as_str());
    }
    assert(out@ =~= cursor_text(down as nat, column as nat));
    out
}

/// The text of a frame's error line.
fn error_line(frame: &RenderFrame) -> (r: String)
    ensures
        r@ == error_text(*frame),
{
    match &frame.error {
        Some(e) => {
            let mut out = "\r\n".to_owned();
            write_color(&mut out, e.as_str(), frame.error_color);
            out
        },
        None => String::new(),
    }
}

/// Where the cursor goes is always within the row.
proof fn lemma_cursor_column_within(ws: Seq<usize>, k: int, start: nat, width: nat)
    requires
        width >= 1,
    ensures
        cursor_at(ws, k, start, width).1 < width,
{
}

/// The text that draws `frame` on `screen`, long lines wrapped to its
/// width and, when they do not all fit, only the rows around the cursor.
pub fn render_wrapped(frame: &RenderFrame, screen: Screen) -> (r: String)
    requires
        frame.cursor <= frame.input@.len(),
        frame.prefix@.len() + frame.input@.len() < usize::MAX,
    ensures
        r@ == wrapped_frame_text(*frame, screen),
{
    let prefix = chars_of(frame.prefix.as_str());
    let cells = chars_of(concat_str(frame.prefix.as_str(), frame.input.as_str()).as_str());
    let widths = widths_of(&cells);
    let width: usize = if screen.columns == 0 {
        1
    } else {
        screen.columns as usize
    };
    let p = prefix.len();
    let wrapped = wrap_cells(&widths, p + frame.cursor, screen.start_column as usize, width);
    let ghost start = screen.start_column as nat;
    let ghost layout = frame_layout(*frame, screen);
    proof {
        lemma_cursor_column_within(widths@, (p + frame.cursor) as int, start, width as nat);
    }
    assert(wrapped.rows@.map_values(|x: usize| x as nat) =~= rows_of(widths@, start, width as nat));
    let last = if wrapped.end_row < wrapped.cursor_row {
        wrapped.cursor_row
    } else {
        wrapped.end_row
    };
    let has_error = frame.error.is_some();
    let space = room_of(screen.rows, has_error);
    let (first, count) = window_of(last, wrapped.cursor_row, space);
    assert(first == layout.0 && count == layout.1);
    assert(wrapped.cursor_row == layout.2 && wrapped.cursor_column == layout.3);
    let below: usize = if has_error {
        count
    } else {
        count - 1
    };
    let mut out = reserve_rows(below as u16);
    if first > 0 {
        push_char(&mut out, '\r');
    }
    out = concat_str(out.as_str(), clear_below().as_str());
    let head = shown_cells(&cells, &wrapped.rows, first, count, 0, p);
    write_segment(&mut out, head.as_str(), frame.prefix_color);
    let tail = shown_cells(&cells, &wrapped.rows, first, count, p, cells.len());
    write_segment(&mut out, tail.as_str(), frame.input_color);
    out = concat_str(out.as_str(), error_line(frame).as_str());
    out = concat_str(
        out.as_str(),
        cursor_moves((wrapped.cursor_row - first) as u16, wrapped.cursor_column as u16).as_str(),
    );
    proof {
        reveal_strlit("\r");
    }
    assert(out@ =~= wrapped_frame_text(*frame, screen));
    out
}

/// The line break that gives a picker its own row below the request line.
pub fn picker_gap() -> (r: &'static str)
    ensures
        r@ == "\r\n"@,
{
    "\r\n"
}

/// The header of a nested menu: its prompt in the menu's prompt color, on
/// its own line.
pub fn nested_menu_header(prompt: &str, style: &MenuStyle) -> (r: String)
    ensures
        r@ == colored_text(prompt@, style.prompt) + "\r\n"@,
{
    let mut out = String::new();
    write_color(&mut out, prompt, style.prompt);
    concat_str(out.as_str(), "\r\n")
}

/// A session menu entry: the indent, then the entry as the theme marks it,
/// in the active color when it is the active one.
pub fn menu_item(indent: &str, text: &str, active: bool, style: &MenuStyle) -> (r: String)
    ensures
        r@ == colored_text(
            indent@ + item_text(text@, active),
            if active {
                style.active
            } else {
                style.item
            },
        ),
{
    let mut item = indent.to_owned();
    crate::text::push_char(&mut item, if active {
        '›'
    } else {
        ' '
    });
    crate::text::push_char(&mut item, ' ');
    let item = concat_str(item.as_str(), text);
    assert(item@ =~= indent@ + item_text(text@, active));
    let mut out = String::new();
    write_color(
        &mut out,
        item.as_str(),
        if active {
            style.active
        } else {
            style.item
        },
    );
    out
}

/// A session menu prompt in the menu's prompt color.
pub fn menu_prompt(prompt: &str, style: &MenuStyle) -> (r: String)
    ensures
        r@ == colored_text(prompt@, style.prompt),
{
    let mut out = String::new();
    write_color(&mut out, prompt, style.prompt);
    out
}

} // verus!
