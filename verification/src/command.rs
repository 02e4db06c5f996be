//! Turning a provider's reply into one shell command line.

use vstd::prelude::*;

use crate::text::{
    char_is_control, chars_of, is_control, split_once, split_once_chars, string_of,
    tidy, trim_chars, trimmed,
};

verus! {

/// Why a reply yields no command.
#[derive(Clone, Copy, Debug, PartialEq, Eq)]
pub enum CommandError {
    /// Nothing but fences and white space.
    Empty,
    /// A control character would reach the shell.
    ControlCharacters,
}

impl CommandError {
    /// The message shown for this error.
    pub fn message(&self) -> (r: String)
        ensures
            r@ == self.message_text(),
    {
        match self {
            CommandError::Empty => "provider returned no command".to_owned(),
            CommandError::ControlCharacters => "provider returned unsafe control characters".to_owned(),
        }
    }

    pub open spec fn message_text(&self) -> Seq<char> {
        match self {
            CommandError::Empty => "provider returned no command"@,
            CommandError::ControlCharacters => "provider returned unsafe control characters"@,
        }
    }
}

/// Start of `s` after any leading `c`, from `k` on.
pub open spec fn skip_char_from(s: Seq<char>, c: char, k: int) -> int
    decreases s.len() - k,
{
    if k >= s.len() {
        s.len() as int
    } else if s[k] == c {
        skip_char_from(s, c, k + 1)
    } else {
        k
    }
}

/// End of `s` before any trailing `c`, looking back from `k`.
pub open spec fn skip_char_back(s: Seq<char>, c: char, k: int) -> int
    decreases k,
{
    if k <= 0 {
        0
    } else if s[k - 1] == c {
        skip_char_back(s, c, k - 1)
    } else {
        k
    }
}

/// `s` without leading and trailing `c` (as `str::trim_matches` with a character).
pub open spec fn strip_char(s: Seq<char>, c: char) -> Seq<char> {
    let a = skip_char_from(s, c, 0);
    let b = skip_char_back(s, c, s.len() as int);
    if a < b {
        s.subrange(a, b)
    } else {
        Seq::empty()
    }
}

/// A code fence's language tag: ASCII letters, digits and hyphens only.
pub open spec fn is_language_tag(s: Seq<char>) -> bool {
    forall|i: int|
        0 <= i < s.len() ==> {
            let u = #[trigger] s[i] as u32;
            (0x30 <= u <= 0x39) || (0x41 <= u <= 0x5a) || (0x61 <= u <= 0x7a) || u == 0x2d
        }
}

/// The lines of `s` (split at each line feed).
pub open spec fn split_lines(s: Seq<char>) -> Seq<Seq<char>>
    decreases s.len(),
{
    match split_once(s, '\n') {
        Some((line, rest)) => {
            if rest.len() < s.len() {
                seq![line] + split_lines(rest)
            } else {
                seq![s]
            }
        },
        None => seq![s],
    }
}

/// `a` and `b` joined by one space, leaving out whichever is empty.
pub open spec fn glue(a: Seq<char>, b: Seq<char>) -> Seq<char> {
    if a.len() == 0 {
        b
    } else if b.len() == 0 {
        a
    } else {
        a + seq![' '] + b
    }
}

/// The lines trimmed, blank ones dropped, joined by single spaces.
pub open spec fn joined(lines: Seq<Seq<char>>) -> Seq<char>
    decreases lines.len(),
{
    if lines.len() == 0 {
        Seq::empty()
    } else {
        glue(trimmed(lines[0]), joined(lines.drop_first()))
    }
}

/// The reply without surrounding white space and code-fence backticks.
pub open spec fn unfenced(content: Seq<char>) -> Seq<char> {
    trimmed(strip_char(trimmed(content), '`'))
}

/// The body of a fenced block whose first line is a language tag.
pub open spec fn without_language(s: Seq<char>) -> Seq<char> {
    match split_once(s, '\n') {
        Some((language, body)) => if is_language_tag(language) {
            trimmed(body)
        } else {
            s
        },
        None => s,
    }
}

/// The command line that a reply holds.
pub open spec fn command_line(content: Seq<char>) -> Seq<char> {
    joined(split_lines(without_language(unfenced(content))))
}

/// Whether `s` holds a control character.
pub open spec fn has_control(s: Seq<char>) -> bool {
    exists|i: int| 0 <= i < s.len() && is_control(#[trigger] s[i])
}

proof fn lemma_glue_assoc(a: Seq<char>, b: Seq<char>, c: Seq<char>)
    ensures
        glue(glue(a, b), c) == glue(a, glue(b, c)),
{
    if a.len() > 0 && b.len() > 0 && c.len() > 0 {
        assert(a + seq![' '] + b + seq![' '] + c =~= a + seq![' '] + (b + seq![' '] + c));
    }
}

proof fn lemma_glue_empty(a: Seq<char>)
    ensures
        glue(a, Seq::empty()) == a,
        glue(Seq::empty(), a) == a,
{
}

fn glue_chars(a: &Vec<char>, b: &Vec<char>) -> (r: Vec<char>)
    ensures
        r@ == glue(a@, b@),
{
    if a.len() == 0 {
        return b.clone();
    }
    if b.len() == 0 {
        return a.clone();
    }
    let mut r = a.clone();
    r.push(' ');
    let mut i: usize = 0;
    while i < b.len()
        invariant
            i <= b@.len(),
            r@ == a@ + seq![' '] + b@.take(i as int),
        decreases b@.len() - i,
    {
        r.push(b[i]);
        i = i + 1;
        assert(r@ =~= a@ + seq![' '] + b@.take(i as int));
    }
    assert(b@.take(b@.len() as int) =~= b@);
    r
}

fn strip_backticks(s: &Vec<char>) -> (r: Vec<char>)
    ensures
        r@ == strip_char(s@, '`'),
{
    let n = s.len();
    let mut a: usize = 0;
    while a < n && s[a] == '`'
        invariant
            a <= n == s@.len(),
            skip_char_from(s@, '`', 0) == skip_char_from(s@, '`', a as int),
        decreases n - a,
    {
        a = a + 1;
    }
    let mut b: usize = n;
    while b > 0 && s[b - 1] == '`'
        invariant
            b <= n == s@.len(),
            skip_char_back(s@, '`', n as int) == skip_char_back(s@, '`', b as int),
        decreases b,
    {
        b = b - 1;
    }
    let mut r: Vec<char> = Vec::new();
    if a < b {
        let mut i = a;
        while i < b
            invariant
                a <= i <= b <= n == s@.len(),
                r@ == s@.subrange(a as int, i as int),
            decreases b - i,
        {
            r.push(s[i]);
            i = i + 1;
            assert(r@ =~= s@.subrange(a as int, i as int));
        }
    }
    r
}

fn language_tag(s: &Vec<char>) -> (r: bool)
    ensures
        r == is_language_tag(s@),
{
    let mut i: usize = 0;
    while i < s.len()
        invariant
            i <= s@.len(),
            forall|j: int|
                0 <= j < i ==> {
                    let u = #[trigger] s@[j] as u32;
                    (0x30 <= u <= 0x39) || (0x41 <= u <= 0x5a) || (0x61 <= u <= 0x7a) || u == 0x2d
                },
        decreases s@.len() - i,
    {
        let u = s[i] as u32;
        if !((0x30 <= u && u <= 0x39) || (0x41 <= u && u <= 0x5a) || (0x61 <= u && u <= 0x7a) || u
            == 0x2d) {
            return false;
        }
        i = i + 1;
    }
    true
}

fn control_free(s: &Vec<char>) -> (r: bool)
    ensures
        r == !has_control(s@),
{
    let mut i: usize = 0;
    while i < s.len()
        invariant
            i <= s@.len(),
            forall|j: int| 0 <= j < i ==> !is_control(#[trigger] s@[j]),
        decreases s@.len() - i,
    {
        if char_is_control(s[i]) {
            return false;
        }
        i = i + 1;
    }
    true
}

/// The lines of `s`, trimmed, blank ones dropped, joined by single spaces.
fn join_lines(s: &Vec<char>) -> (r: Vec<char>)
    ensures
        r@ == joined(split_lines(s@)),
    decreases s@.len(),
{
    let mut out: Vec<char> = Vec::new();
    let mut rest = s.clone();
    assert(rest@ =~= s@);
    proof {
        lemma_glue_empty(joined(split_lines(s@)));
    }
    loop
        invariant
            joined(split_lines(s@)) == glue(out@, joined(split_lines(rest@))),
        decreases rest@.len(),
    {
        match split_once_chars(&rest, '\n') {
            Some((line, tail)) => {
                proof {
                    assert(tail@.len() < rest@.len());
                    assert(split_lines(rest@) == seq![line@] + split_lines(tail@));
                    assert((seq![line@] + split_lines(tail@)).drop_first() =~= split_lines(tail@));
                    lemma_glue_assoc(out@, trimmed(line@), joined(split_lines(tail@)));
                }
                let t = trim_chars(&line);
                out = glue_chars(&out, &t);
                rest = tail;
            },
            None => {
                proof {
                    assert(split_lines(rest@) == seq![rest@]);
                    assert(seq![rest@].drop_first() =~= Seq::<Seq<char>>::empty());
                    assert(joined(Seq::<Seq<char>>::empty()) == Seq::<char>::empty());
                    assert(joined(seq![rest@]) == glue(trimmed(rest@), Seq::<char>::empty()));
                    lemma_glue_empty(trimmed(rest@));
                }
                let t = trim_chars(&rest);
                return glue_chars(&out, &t);
            },
        }
    }
}

/// What `normalize_command` makes of `content`.
pub open spec fn normalized(content: Seq<char>) -> Result<Seq<char>, CommandError> {
    let line = command_line(content);
    if line.len() == 0 {
        Err(CommandError::Empty)
    } else if has_control(line) {
        Err(CommandError::ControlCharacters)
    } else {
        Ok(line)
    }
}

proof fn lemma_joined_tidy(lines: Seq<Seq<char>>)
    ensures
        tidy(joined(lines)),
    decreases lines.len(),
{
    if lines.len() > 0 {
        lemma_joined_tidy(lines.drop_first());
        crate::text::lemma_trimmed_tidy(lines[0]);
        let a = trimmed(lines[0]);
        let b = joined(lines.drop_first());
        if a.len() > 0 && b.len() > 0 {
            assert((a + seq![' '] + b)[0] == a[0]);
            assert((a + seq![' '] + b)[(a + seq![' '] + b).len() - 1] == b[b.len() - 1]);
        }
    }
}

/// A command taken from a reply is one line that is its own trim, and a
/// reply of nothing but white space gives no command.
pub proof fn law_command_is_one_trimmed_line(content: Seq<char>)
    ensures
        normalized(content) matches Ok(c) ==> trimmed(c) == c && !c.contains('\n') && c.len() > 0,
        trimmed(content).len() == 0 ==> normalized(content) == Err::<Seq<char>, CommandError>(
            CommandError::Empty,
        ),
{
    let line = command_line(content);
    lemma_joined_tidy(split_lines(without_language(unfenced(content))));
    if line.len() > 0 {
        crate::text::lemma_trimmed_unchanged(line);
    }
    if line.contains('\n') {
        let i = choose|i: int| 0 <= i < line.len() && line[i] == '\n';
        assert(is_control(line[i]));
    }
    if trimmed(content).len() == 0 {
        let e = Seq::<char>::empty();
        assert(trimmed(content) =~= e);
        assert(strip_char(e, '`') =~= e);
        assert(trimmed(e) =~= e);
        assert(!e.contains('\n'));
        assert(split_once(e, '\n') is None);
        assert(without_language(e) == e);
        assert(split_lines(e) == seq![e]);
        assert(seq![e].drop_first() =~= Seq::<Seq<char>>::empty());
        assert(joined(seq![e]) == glue(trimmed(e), joined(Seq::<Seq<char>>::empty())));
    }
}

/// The command in a provider's reply: surrounding white space and code-fence
/// backticks go, a leading language-tag line goes, the lines are trimmed and
/// joined by spaces with blank ones dropped. Empty results and results with
/// control characters are refused.
pub fn normalize_command(content: &str) -> (r: Result<String, CommandError>)
    ensures
        command_line(content@).len() == 0 ==> r == Err::<String, CommandError>(CommandError::Empty),
        command_line(content@).len() > 0 && has_control(command_line(content@)) ==> r == Err::<
            String,
            CommandError,
        >(CommandError::ControlCharacters),
        command_line(content@).len() > 0 && !has_control(command_line(content@)) ==> r is Ok
            && r->Ok_0@ == command_line(content@),
{
    let chars = chars_of(content);
    let outer = trim_chars(&chars);
    let stripped = strip_backticks(&outer);
    let mut command = trim_chars(&stripped);
    match split_once_chars(&command, '\n') {
        Some((language, body)) => {
            if language_tag(&language) {
                command = trim_chars(&body);
            }
        },
        None => {},
    }
    let line = join_lines(&command);
    if line.len() == 0 {
        return Err(CommandError::Empty);
    }
    if !control_free(&line) {
        return Err(CommandError::ControlCharacters);
    }
    Ok(string_of(&line))
}

} // verus!
