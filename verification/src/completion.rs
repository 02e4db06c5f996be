//! Literal path and command completion of the word before the cursor.

use vstd::prelude::*;
use vstd::utf8::*;

use crate::text::{char_is_control, chars_of, concat_str, is_control, is_space, string_of};
use crate::utf8::{byte_len, lemma_encode_push, utf8_width};

verus! {

/// The text before byte offset `cursor`, when the offset falls on a
/// character boundary within the text.
pub open spec fn text_before(text: Seq<char>, cursor: nat) -> Option<Seq<char>> {
    if exists|k: int| 0 <= k <= text.len() && byte_len(text.take(k)) == cursor {
        Some(text.take(choose|k: int| 0 <= k <= text.len() && byte_len(text.take(k)) == cursor))
    } else {
        None
    }
}

/// Where the last word of `s` starts: just after its last white space.
pub open spec fn word_start(s: Seq<char>) -> int
    decreases s.len(),
{
    if s.len() == 0 {
        0
    } else if is_space(s.last()) {
        s.len() as int
    } else {
        word_start(s.drop_last())
    }
}

/// A character that completion does not look past: quotes, backquote,
/// `$` and backslash belong to shell expressions.
pub open spec fn is_shell_syntax(c: char) -> bool {
    c == '\'' || c == '"' || c == '`' || c == '$' || c == '\\'
}

/// Position of the last `/` in `s`, if any.
pub open spec fn last_slash(s: Seq<char>) -> Option<int>
    decreases s.len(),
{
    if s.len() == 0 {
        None
    } else if s.last() == '/' {
        Some(s.len() - 1)
    } else {
        last_slash(s.drop_last())
    }
}

/// What to complete: the word before the cursor, the directory part of it
/// (through its last `/`), the name prefix after that, and, for a
/// directory under `~/`, the part below the home directory.
#[derive(Clone, Debug, PartialEq, Eq)]
pub struct CompletionQuery {
    pub token: String,
    pub directory: String,
    pub prefix: String,
    pub home_relative: Option<String>,
}

/// The directory whose entries a completion lists.
#[derive(Clone, Debug, PartialEq, Eq)]
pub enum ListFrom {
    /// This path under the home directory.
    Home(String),
    /// This directory, relative to the working directory unless absolute.
    WorkingDirectory(String),
}

/// Where a completion looks: the directory it lists, and whether commands
/// on `PATH` are candidates too.
#[derive(Clone, Debug, PartialEq, Eq)]
pub struct CompletionPlan {
    pub list: ListFrom,
    pub search_path: bool,
}

/// Where completing `query` looks: a word under `~/` lists the home
/// directory (and is not completed without one), any other word the
/// directory it names; a word without a directory also matches commands on
/// `PATH`.
pub fn completion_plan(query: &CompletionQuery, has_home: bool) -> (r: Option<CompletionPlan>)
    ensures
        r is None <==> (query.home_relative is Some && !has_home),
        r matches Some(plan) ==> {
            &&& plan.search_path == (query.directory@.len() == 0)
            &&& match query.home_relative {
                Some(h) => plan.list matches ListFrom::Home(x) && x@ == h@,
                None => plan.list matches ListFrom::WorkingDirectory(d) && d@ == query.directory@,
            }
        },
{
    let list = match &query.home_relative {
        Some(relative) => {
            if !has_home {
                return None;
            }
            ListFrom::Home(crate::text::copy_string(relative.as_str()))
        },
        None => ListFrom::WorkingDirectory(crate::text::copy_string(query.directory.as_str())),
    };
    Some(CompletionPlan { list, search_path: crate::text::chars_of(query.directory.as_str()).len() == 0 })
}

/// The query for completing at byte offset `cursor` of `text`: none when
/// the offset is not a character boundary, when the word before it is
/// empty, or when that word holds shell syntax.
pub open spec fn query_parts(text: Seq<char>, cursor: nat) -> Option<(Seq<char>, Seq<char>, Seq<char>, Option<Seq<char>>)> {
    match text_before(text, cursor) {
        None => None,
        Some(before) => {
            let token = before.skip(word_start(before));
            if token.len() == 0 || exists|i: int| 0 <= i < token.len() && is_shell_syntax(#[trigger] token[i]) {
                None
            } else {
                let (directory, prefix) = match last_slash(token) {
                    Some(j) => (token.take(j + 1), token.skip(j + 1)),
                    None => (Seq::empty(), token),
                };
                let home = if directory.len() >= 2 && directory[0] == '~' && directory[1] == '/' {
                    Some(directory.skip(2))
                } else {
                    None
                };
                Some((token, directory, prefix, home))
            }
        },
    }
}

/// Each character adds at least one byte.
proof fn lemma_byte_len_grows(s: Seq<char>, a: int, b: int)
    requires
        0 <= a < b <= s.len(),
    ensures
        byte_len(s.take(a)) < byte_len(s.take(b)),
    decreases b - a,
{
    lemma_encode_push(s.take(b - 1), s[b - 1]);
    assert(s.take(b - 1).push(s[b - 1]) =~= s.take(b));
    char_is_scalar(s[b - 1]);
    assert(encode_scalar(s[b - 1] as u32).len() >= 1);
    if a < b - 1 {
        lemma_byte_len_grows(s, a, b - 1);
    }
}

fn char_index_at(text: &Vec<char>, cursor: usize) -> (r: Option<usize>)
    ensures
        match r {
            Some(k) => k <= text@.len() && byte_len(text@.take(k as int)) == cursor,
            None => !exists|k: int| 0 <= k <= text@.len() && byte_len(text@.take(k)) == cursor,
        },
{
    let mut i: usize = 0;
    let mut acc: usize = 0;
    assert(text@.take(0) =~= Seq::<char>::empty());
    while i < text.len() && acc < cursor
        invariant
            i <= text@.len(),
            acc == byte_len(text@.take(i as int)),
            acc <= cursor,
        decreases text@.len() - i,
    {
        let w = utf8_width(text[i]);
        proof {
            lemma_encode_push(text@.take(i as int), text@[i as int]);
            assert(text@.take(i as int).push(text@[i as int]) =~= text@.take(i + 1));
        }
        if w > cursor - acc {
            proof {
                assert forall|k: int| 0 <= k <= text@.len() implies byte_len(text@.take(k)) != cursor by {
                    if k <= i {
                        if k < i {
                            lemma_byte_len_grows(text@, k, i as int);
                        }
                    } else {
                        if k > i + 1 {
                            lemma_byte_len_grows(text@, i + 1, k);
                        }
                    }
                }
            }
            return None;
        }
        acc = acc + w;
        i = i + 1;
    }
    if acc == cursor {
        Some(i)
    } else {
        proof {
            assert forall|k: int| 0 <= k <= text@.len() implies byte_len(text@.take(k)) != cursor by {
                if k < i {
                    lemma_byte_len_grows(text@, k, i as int);
                }
            }
        }
        None
    }
}

fn any_shell_syntax(t: &Vec<char>) -> (r: bool)
    ensures
        r == exists|i: int| 0 <= i < t@.len() && is_shell_syntax(#[trigger] t@[i]),
{
    let mut j: usize = 0;
    while j < t.len()
        invariant
            j <= t@.len(),
            forall|x: int| 0 <= x < j ==> !is_shell_syntax(#[trigger] t@[x]),
        decreases t@.len() - j,
    {
        let c = t[j];
        if c == '\'' || c == '"' || c == '`' || c == '$' || c == '\\' {
            assert(is_shell_syntax(t@[j as int]));
            return true;
        }
        j = j + 1;
    }
    false
}

fn any_control(t: &Vec<char>) -> (r: bool)
    ensures
        r == exists|i: int| 0 <= i < t@.len() && is_control(#[trigger] t@[i]),
{
    let mut i: usize = 0;
    while i < t.len()
        invariant
            i <= t@.len(),
            forall|j: int| 0 <= j < i ==> !is_control(#[trigger] t@[j]),
        decreases t@.len() - i,
    {
        if char_is_control(t[i]) {
            assert(is_control(t@[i as int]));
            return true;
        }
        i = i + 1;
    }
    false
}

/// The query for completing at byte offset `cursor` of `text`.
pub fn completion_query(text: &str, cursor: usize) -> (r: Option<CompletionQuery>)
    ensures
        match query_parts(text@, cursor as nat) {
            None => r is None,
            Some((token, directory, prefix, home)) => r matches Some(q) && q.token@ == token
                && q.directory@ == directory && q.prefix@ == prefix && match home {
                Some(h) => q.home_relative matches Some(hr) && hr@ == h,
                None => q.home_relative is None,
            },
        },
{
    let chars = chars_of(text);
    let k = match char_index_at(&chars, cursor) {
        Some(k) => k,
        None => {
            return None;
        },
    };
    let ghost before = text@.take(k as int);
    proof {
        let c = choose|j: int| 0 <= j <= text@.len() && byte_len(text@.take(j)) == cursor;
        if c != k {
            if c < k {
                lemma_byte_len_grows(text@, c, k as int);
            } else {
                lemma_byte_len_grows(text@, k as int, c);
            }
        }
    }
    let mut start: usize = k;
    assert(before.take(k as int) =~= before);
    while start > 0 && !crate::text::char_is_whitespace(chars[start - 1])
        invariant
            start <= k <= chars@.len(),
            chars@ == text@,
            before == text@.take(k as int),
            word_start(before) == word_start(before.take(start as int)),
        decreases start,
    {
        assert(before.take(start as int).drop_last() =~= before.take(start - 1));
        start = start - 1;
    }
    assert(word_start(before.take(start as int)) == start) by {
        assert(before.take(start as int).len() == start);
    }
    let mut token: Vec<char> = Vec::new();
    let mut i = start;
    while i < k
        invariant
            start <= i <= k <= chars@.len(),
            token@ == chars@.subrange(start as int, i as int),
        decreases k - i,
    {
        token.push(chars[i]);
        i = i + 1;
        assert(token@ =~= chars@.subrange(start as int, i as int));
    }
    assert(token@ =~= before.skip(start as int));
    if token.len() == 0 {
        return None;
    }
    if any_shell_syntax(&token) {
        return None;
    }
    let mut slash = token.len();
    assert(token@.take(token@.len() as int) =~= token@);
    while slash > 0 && token[slash - 1] != '/'
        invariant
            slash <= token@.len(),
            last_slash(token@) == last_slash(token@.take(slash as int)),
        decreases slash,
    {
        assert(token@.take(slash as int).drop_last() =~= token@.take(slash - 1));
        slash = slash - 1;
    }
    assert(token@.take(token@.len() as int) =~= token@);
    let mut directory: Vec<char> = Vec::new();
    let mut x: usize = 0;
    while x < slash
        invariant
            x <= slash <= token@.len(),
            directory@ == token@.take(x as int),
        decreases slash - x,
    {
        directory.push(token[x]);
        x = x + 1;
        assert(directory@ =~= token@.take(x as int));
    }
    let mut prefix: Vec<char> = Vec::new();
    let mut y: usize = slash;
    while y < token.len()
        invariant
            slash <= y <= token@.len(),
            prefix@ == token@.subrange(slash as int, y as int),
        decreases token@.len() - y,
    {
        prefix.push(token[y]);
        y = y + 1;
        assert(prefix@ =~= token@.subrange(slash as int, y as int));
    }
    proof {
        if slash > 0 {
            assert(token@.take(slash as int).last() == '/');
            assert(last_slash(token@.take(slash as int)) == Some(slash - 1));
        } else {
            assert(last_slash(token@.take(0)) is None);
        }
        assert(prefix@ =~= token@.skip(slash as int));
    }
    let home_relative = if directory.len() >= 2 && directory[0] == '~' && directory[1] == '/' {
        let mut rel: Vec<char> = Vec::new();
        let mut z: usize = 2;
        while z < directory.len()
            invariant
                2 <= z <= directory@.len(),
                rel@ == directory@.subrange(2, z as int),
            decreases directory@.len() - z,
        {
            rel.push(directory[z]);
            z = z + 1;
            assert(rel@ =~= directory@.subrange(2, z as int));
        }
        assert(rel@ =~= directory@.skip(2));
        Some(string_of(&rel))
    } else {
        None
    };
    Some(
        CompletionQuery {
            token: string_of(&token),
            directory: string_of(&directory),
            prefix: string_of(&prefix),
            home_relative,
        },
    )
}

/// What the file system says of a directory entry.
#[derive(Clone, Copy, Debug, PartialEq, Eq)]
pub struct EntryKind {
    pub is_dir: bool,
    pub is_file: bool,
    /// Some execute permission bit is set.
    pub executable: bool,
}

/// The candidate an entry named `name` gives: none when the name does not
/// start with the prefix, is hidden while the prefix is not, holds a
/// control character, or could not be examined, and, among commands, when
/// it is not an executable file; else the directory part, the name, and a
/// `/` for a directory.
pub open spec fn candidate_of(
    prefix: Seq<char>,
    directory: Seq<char>,
    commands: bool,
    name: Seq<char>,
    kind: Option<EntryKind>,
) -> Option<Seq<char>> {
    if !(prefix.len() <= name.len() && name.take(prefix.len() as int) == prefix) {
        None
    } else if name.len() > 0 && name[0] == '.' && !(prefix.len() > 0 && prefix[0] == '.') {
        None
    } else if exists|i: int| 0 <= i < name.len() && is_control(#[trigger] name[i]) {
        None
    } else {
        match kind {
            None => None,
            Some(k) => if commands && !(k.is_file && k.executable) {
                None
            } else {
                Some(
                    directory + name + if k.is_dir {
                        seq!['/']
                    } else {
                        Seq::empty()
                    },
                )
            },
        }
    }
}

/// Whether `s` starts with `p`.
fn starts_with(s: &Vec<char>, p: &Vec<char>) -> (r: bool)
    ensures
        r == (p@.len() <= s@.len() && s@.take(p@.len() as int) == p@),
{
    if p.len() > s.len() {
        return false;
    }
    let r = crate::text::occurs_at(s, p, 0);
    assert(s@.subrange(0, p@.len() as int) =~= s@.take(p@.len() as int));
    r
}

/// The candidate that a directory entry gives, if any.
pub fn entry_candidate(
    prefix: &str,
    directory: &str,
    commands: bool,
    name: &str,
    kind: Option<EntryKind>,
) -> (r: Option<String>)
    ensures
        match candidate_of(prefix@, directory@, commands, name@, kind) {
            Some(c) => r matches Some(s) && s@ == c,
            None => r is None,
        },
{
    let n = chars_of(name);
    let p = chars_of(prefix);
    if !starts_with(&n, &p) {
        return None;
    }
    if n.len() > 0 && n[0] == '.' && !(p.len() > 0 && p[0] == '.') {
        return None;
    }
    if any_control(&n) {
        return None;
    }
    match kind {
        None => None,
        Some(k) => {
            if commands && !(k.is_file && k.executable) {
                return None;
            }
            let joined = concat_str(directory, name);
            if k.is_dir {
                let mut with_slash = joined;
                crate::text::push_char(&mut with_slash, '/');
                Some(with_slash)
            } else {
                assert(joined@ + Seq::<char>::empty() =~= joined@);
                Some(joined)
            }
        },
    }
}

/// The longest common prefix of `a` and `b`.
pub open spec fn common_prefix(a: Seq<char>, b: Seq<char>) -> Seq<char>
    decreases a.len(),
{
    if a.len() == 0 || b.len() == 0 || a[0] != b[0] {
        Seq::empty()
    } else {
        seq![a[0]] + common_prefix(a.drop_first(), b.drop_first())
    }
}

/// The longest prefix that all of `cs` share (of one or more).
pub open spec fn shared_prefix(cs: Seq<Seq<char>>) -> Seq<char>
    decreases cs.len(),
{
    if cs.len() <= 1 {
        if cs.len() == 1 {
            cs[0]
        } else {
            Seq::empty()
        }
    } else {
        common_prefix(shared_prefix(cs.drop_last()), cs.last())
    }
}

/// `p` is a prefix of `s`.
pub open spec fn is_prefix(p: Seq<char>, s: Seq<char>) -> bool {
    p.len() <= s.len() && s.take(p.len() as int) == p
}

/// What completing `token` inserts, given every candidate: the rest of
/// their shared prefix after the token, when there are candidates, the
/// shared prefix starts with the token, and something is left.
pub open spec fn completion_text(token: Seq<char>, candidates: Seq<Seq<char>>) -> Option<Seq<char>> {
    if candidates.len() == 0 {
        None
    } else {
        let shared = shared_prefix(candidates);
        if is_prefix(token, shared) && shared.len() > token.len() {
            Some(shared.skip(token.len() as int))
        } else {
            None
        }
    }
}

proof fn lemma_common_prefix(a: Seq<char>, b: Seq<char>)
    ensures
        is_prefix(common_prefix(a, b), a),
        is_prefix(common_prefix(a, b), b),
    decreases a.len(),
{
    if !(a.len() == 0 || b.len() == 0 || a[0] != b[0]) {
        lemma_common_prefix(a.drop_first(), b.drop_first());
        let rest = common_prefix(a.drop_first(), b.drop_first());
        assert(a.take(rest.len() as int + 1) =~= seq![a[0]] + a.drop_first().take(rest.len() as int));
        assert(b.take(rest.len() as int + 1) =~= seq![b[0]] + b.drop_first().take(rest.len() as int));
        assert(common_prefix(a, b) == seq![a[0]] + rest);
    } else {
        assert(a.take(0) =~= Seq::<char>::empty());
        assert(b.take(0) =~= Seq::<char>::empty());
    }
}

fn common_chars(a: &Vec<char>, b: &Vec<char>) -> (r: Vec<char>)
    ensures
        r@ == common_prefix(a@, b@),
{
    let mut n: usize = 0;
    assert(a@.skip(0) =~= a@);
    assert(b@.skip(0) =~= b@);
    assert(a@.take(0) + common_prefix(a@, b@) =~= common_prefix(a@, b@));
    while n < a.len() && n < b.len() && a[n] == b[n]
        invariant
            n <= a@.len(),
            n <= b@.len(),
            forall|j: int| 0 <= j < n ==> a@[j] == b@[j],
            common_prefix(a@, b@) == a@.take(n as int) + common_prefix(a@.skip(n as int), b@.skip(n as int)),
        decreases a@.len() - n,
    {
        proof {
            let sa = a@.skip(n as int);
            let sb = b@.skip(n as int);
            assert(sa.drop_first() =~= a@.skip(n + 1));
            assert(sb.drop_first() =~= b@.skip(n + 1));
            assert(a@.take(n as int) + seq![a@[n as int]] =~= a@.take(n + 1));
            assert(a@.take(n + 1) + common_prefix(a@.skip(n + 1), b@.skip(n + 1)) =~= a@.take(n as int) + (seq![sa[0]] + common_prefix(sa.drop_first(), sb.drop_first())));
        }
        n = n + 1;
    }
    proof {
        assert(common_prefix(a@.skip(n as int), b@.skip(n as int)) =~= Seq::<char>::empty());
    }
    let mut r: Vec<char> = Vec::new();
    let mut i: usize = 0;
    while i < n
        invariant
            i <= n <= a@.len(),
            r@ == a@.take(i as int),
        decreases n - i,
    {
        r.push(a[i]);
        i = i + 1;
        assert(r@ =~= a@.take(i as int));
    }
    assert(r@ =~= a@.take(n as int) + Seq::<char>::empty());
    r
}

/// What completing `token` inserts at the cursor, given every candidate.
pub fn completion(token: &str, candidates: &Vec<String>) -> (r: Option<String>)
    ensures
        match completion_text(token@, crate::text::strs(candidates@)) {
            Some(t) => r matches Some(s) && s@ == t,
            None => r is None,
        },
{
    proof {
        crate::session::lemma_strs(candidates@);
    }
    let ghost cs = crate::text::strs(candidates@);
    if candidates.len() == 0 {
        return None;
    }
    let mut shared = chars_of(candidates[0].as_str());
    let mut i: usize = 1;
    assert(cs.take(1) =~= seq![cs[0]]);
    while i < candidates.len()
        invariant
            1 <= i <= candidates@.len(),
            cs == crate::text::strs(candidates@),
            cs.len() == candidates@.len(),
            forall|j: int| 0 <= j < candidates@.len() ==> #[trigger] cs[j] == candidates@[j]@,
            shared@ == shared_prefix(cs.take(i as int)),
        decreases candidates@.len() - i,
    {
        assert(cs.take(i + 1).drop_last() =~= cs.take(i as int));
        let next = chars_of(candidates[i].as_str());
        shared = common_chars(&shared, &next);
        i = i + 1;
    }
    assert(cs.take(candidates@.len() as int) =~= cs);
    let t = chars_of(token);
    if !starts_with(&shared, &t) || shared.len() <= t.len() {
        return None;
    }
    let mut rest: Vec<char> = Vec::new();
    let mut k = t.len();
    while k < shared.len()
        invariant
            t@.len() <= k <= shared@.len(),
            rest@ == shared@.subrange(t@.len() as int, k as int),
        decreases shared@.len() - k,
    {
        rest.push(shared[k]);
        k = k + 1;
        assert(rest@ =~= shared@.subrange(t@.len() as int, k as int));
    }
    assert(rest@ =~= shared@.skip(t@.len() as int));
    Some(string_of(&rest))
}

proof fn lemma_shared_prefix(cs: Seq<Seq<char>>, j: int)
    requires
        0 <= j < cs.len(),
    ensures
        is_prefix(shared_prefix(cs), cs[j]),
    decreases cs.len(),
{
    if cs.len() == 1 {
        assert(cs[j].take(cs[j].len() as int) =~= cs[j]);
    } else {
        let front = cs.drop_last();
        lemma_common_prefix(shared_prefix(front), cs.last());
        if j < cs.len() - 1 {
            lemma_shared_prefix(front, j);
            let s = shared_prefix(cs);
            let f = shared_prefix(front);
            assert(front[j] == cs[j]);
            assert(cs[j].take(s.len() as int) =~= f.take(s.len() as int));
        }
    }
}

/// What completion inserts never contradicts a candidate: the word before
/// the cursor followed by the inserted text begins every candidate, so the
/// text after the cursor is left as it is and only what all candidates
/// share is added.
pub proof fn law_completion_extends_every_candidate(token: Seq<char>, candidates: Seq<Seq<char>>, j: int)
    requires
        completion_text(token, candidates) is Some,
        0 <= j < candidates.len(),
    ensures
        is_prefix(token + completion_text(token, candidates)->Some_0, candidates[j]),
        completion_text(token, candidates)->Some_0.len() > 0,
{
    let shared = shared_prefix(candidates);
    lemma_shared_prefix(candidates, j);
    assert(token + shared.skip(token.len() as int) =~= shared);
}

/// The candidates that the entries of `listing` (each a name, and what
/// it is when it could be examined) give, in order.
pub open spec fn gathered(
    listing: Seq<(String, Option<EntryKind>)>,
    prefix: Seq<char>,
    directory: Seq<char>,
    commands: bool,
) -> Seq<Seq<char>>
    decreases listing.len(),
{
    if listing.len() == 0 {
        Seq::empty()
    } else {
        let rest = gathered(listing.drop_last(), prefix, directory, commands);
        match candidate_of(prefix, directory, commands, listing.last().0@, listing.last().1) {
            Some(c) => rest.push(c),
            None => rest,
        }
    }
}

/// Appends the candidates of `listing` to `out`.
fn gather(
    listing: &Vec<(String, Option<EntryKind>)>,
    prefix: &str,
    directory: &str,
    commands: bool,
    out: &mut Vec<String>,
)
    ensures
        crate::text::strs(final(out)@) == crate::text::strs(old(out)@) + gathered(
            listing@,
            prefix@,
            directory@,
            commands,
        ),
{
    let ghost start = crate::text::strs(out@);
    let mut i: usize = 0;
    while i < listing.len()
        invariant
            i <= listing@.len(),
            crate::text::strs(out@) == start + gathered(listing@.take(i as int), prefix@, directory@, commands),
        decreases listing@.len() - i,
    {
        let ghost before = out@;
        proof {
            assert(listing@.take(i + 1).drop_last() =~= listing@.take(i as int));
            assert(listing@.take(i + 1).last() == listing@[i as int]);
        }
        match entry_candidate(prefix, directory, commands, listing[i].0.as_str(), listing[i].1) {
            Some(c) => {
                out.push(c);
                proof {
                    assert(crate::text::strs(out@) =~= crate::text::strs(before).push(out@.last()@));
                }
            },
            None => {},
        }
        i = i + 1;
    }
    assert(listing@.take(listing@.len() as int) =~= listing@);
}

/// What completing `query` inserts, where `plan` says to look, given the
/// entries of the directory it lists and of the `PATH` directories: the
/// candidates' shared part beyond the word, when there is any.
pub fn completion_from(
    query: &CompletionQuery,
    plan: &CompletionPlan,
    listing: &Vec<(String, Option<EntryKind>)>,
    path_listing: &Vec<(String, Option<EntryKind>)>,
) -> (r: Option<String>)
    ensures
        ({
            let candidates = gathered(listing@, query.prefix@, query.directory@, false) + if plan.search_path {
                gathered(path_listing@, query.token@, Seq::empty(), true)
            } else {
                Seq::empty()
            };
            match completion_text(query.token@, candidates) {
                Some(t) => r matches Some(s) && s@ == t,
                None => r is None,
            }
        }),
{
    let mut candidates: Vec<String> = Vec::new();
    proof {
        assert(crate::text::strs(candidates@) =~= Seq::<Seq<char>>::empty());
    }
    gather(listing, query.prefix.as_str(), query.directory.as_str(), false, &mut candidates);
    let ghost own = gathered(listing@, query.prefix@, query.directory@, false);
    assert(crate::text::strs(candidates@) =~= own);
    proof {
        reveal_strlit("");
        assert(""@ =~= Seq::<char>::empty());
    }
    if plan.search_path {
        gather(path_listing, query.token.as_str(), "", true, &mut candidates);
    } else {
        assert(own + Seq::<Seq<char>>::empty() =~= own);
    }
    completion(query.token.as_str(), &candidates)
}

proof fn lemma_text_before_prefix(text: Seq<char>, k: int)
    requires
        0 <= k <= text.len(),
    ensures
        text_before(text, byte_len(text.take(k))) == Some(text.take(k)),
{
    let cursor = byte_len(text.take(k));
    assert(0 <= k <= text.len() && byte_len(text.take(k)) == cursor);
    let c = choose|j: int| 0 <= j <= text.len() && byte_len(text.take(j)) == cursor;
    if c < k {
        lemma_byte_len_grows(text, c, k);
    } else if c > k {
        lemma_byte_len_grows(text, k, c);
    }
}

/// Completion reads only the text before the cursor: whatever follows it,
/// the query (and so what is inserted) is the same.
pub proof fn law_completion_ignores_the_rest(before: Seq<char>, after: Seq<char>)
    ensures
        query_parts(before + after, byte_len(before)) == query_parts(before, byte_len(before)),
{
    let text = before + after;
    assert(text.take(before.len() as int) =~= before);
    assert(before.take(before.len() as int) =~= before);
    lemma_text_before_prefix(text, before.len() as int);
    lemma_text_before_prefix(before, before.len() as int);
}

} // verus!
