//! Character-level building blocks shared by the library.

use vstd::prelude::*;

verus! {

/// Unicode `White_Space` property, as std's `char::is_whitespace` documents it.
pub open spec fn is_space(c: char) -> bool {
    let u = c as u32;
    (0x9 <= u && u <= 0xd) || u == 0x20 || u == 0x85 || u == 0xa0 || u == 0x1680 || (0x2000 <= u
        && u <= 0x200a) || u == 0x2028 || u == 0x2029 || u == 0x202f || u == 0x205f || u == 0x3000
}

/// Unicode general category `Cc`, as std's `char::is_control` documents it.
pub open spec fn is_control(c: char) -> bool {
    let u = c as u32;
    u <= 0x1f || (0x7f <= u && u <= 0x9f)
}

/// Whether `c` has the Unicode `White_Space` property (as
/// `char::is_whitespace`).
pub fn char_is_whitespace(c: char) -> (r: bool)
    ensures
        r == is_space(c),
{
    let u = c as u32;
    (0x9 <= u && u <= 0xd) || u == 0x20 || u == 0x85 || u == 0xa0 || u == 0x1680 || (0x2000 <= u
        && u <= 0x200a) || u == 0x2028 || u == 0x2029 || u == 0x202f || u == 0x205f || u == 0x3000
}

/// Whether `c` is in general category `Cc` (as `char::is_control`).
pub fn char_is_control(c: char) -> (r: bool)
    ensures
        r == is_control(c),
{
    let u = c as u32;
    u <= 0x1f || (0x7f <= u && u <= 0x9f)
}

/// Calls `String::push`, which appends one character.
#[verifier::external_body]
pub(crate) fn push_char(s: &mut String, c: char)
    ensures
        final(s)@ == old(s)@.push(c),
{
    s.push(c)
}

/// The characters of `s`, in order.
pub fn chars_of(s: &str) -> (r: Vec<char>)
    ensures
        r@ == s@,
{
    broadcast use vstd::string::group_string_axioms;

    let mut r: Vec<char> = Vec::new();
    for c in it: s.chars()
        invariant
            r@ == it.seq().take(it.index() as int),
            it.seq() == s@,
    {
        r.push(c);
    }
    assert(r@ =~= s@);
    r
}

/// A string holding the characters of `v`, in order.
pub fn string_of(v: &Vec<char>) -> (r: String)
    ensures
        r@ == v@,
{
    let mut r = String::new();
    let mut i: usize = 0;
    while i < v.len()
        invariant
            i <= v@.len(),
            r@ == v@.take(i as int),
        decreases v@.len() - i,
    {
        push_char(&mut r, v[i]);
        i = i + 1;
        assert(r@ =~= v@.take(i as int));
    }
    assert(v@.take(v@.len() as int) =~= v@);
    r
}


/// Index of the first character that is not white space, from `k` on.
pub open spec fn skip_space_from(s: Seq<char>, k: int) -> int
    decreases s.len() - k,
{
    if k >= s.len() {
        s.len() as int
    } else if is_space(s[k]) {
        skip_space_from(s, k + 1)
    } else {
        k
    }
}

/// End of the text before the white space that ends it, looking back from `k`.
pub open spec fn skip_space_back(s: Seq<char>, k: int) -> int
    decreases k,
{
    if k <= 0 {
        0
    } else if is_space(s[k - 1]) {
        skip_space_back(s, k - 1)
    } else {
        k
    }
}

/// `s` without leading and trailing white space (as `str::trim`).
pub open spec fn trimmed(s: Seq<char>) -> Seq<char> {
    let a = skip_space_from(s, 0);
    let b = skip_space_back(s, s.len() as int);
    if a < b {
        s.subrange(a, b)
    } else {
        Seq::empty()
    }
}

/// Text that neither starts nor ends with white space is its own trim.
pub proof fn lemma_trimmed_unchanged(s: Seq<char>)
    requires
        s.len() > 0,
        !is_space(s[0]),
        !is_space(s[s.len() - 1]),
    ensures
        trimmed(s) == s,
{
    assert(skip_space_from(s, 0) == 0);
    assert(skip_space_back(s, s.len() as int) == s.len());
    assert(s.subrange(0, s.len() as int) =~= s);
}

/// Text that is empty or neither starts nor ends with white space.
pub open spec fn tidy(s: Seq<char>) -> bool {
    s.len() == 0 || (!is_space(s[0]) && !is_space(s[s.len() - 1]))
}

proof fn lemma_skip_space_from_stops(s: Seq<char>, k: int)
    requires
        0 <= k <= s.len(),
    ensures
        skip_space_from(s, k) < s.len() ==> !is_space(s[skip_space_from(s, k)]),
    decreases s.len() - k,
{
    if k < s.len() && is_space(s[k]) {
        lemma_skip_space_from_stops(s, k + 1);
    }
}

proof fn lemma_skip_space_back_stops(s: Seq<char>, k: int)
    requires
        0 <= k <= s.len(),
    ensures
        skip_space_back(s, k) > 0 ==> !is_space(s[skip_space_back(s, k) - 1]),
    decreases k,
{
    if k > 0 && is_space(s[k - 1]) {
        lemma_skip_space_back_stops(s, k - 1);
    }
}

/// A trimmed text neither starts nor ends with white space.
pub proof fn lemma_trimmed_tidy(s: Seq<char>)
    ensures
        tidy(trimmed(s)),
{
    lemma_skip_space_from_bounds(s, 0);
    lemma_skip_space_back_bounds(s, s.len() as int);
    lemma_skip_space_from_stops(s, 0);
    lemma_skip_space_back_stops(s, s.len() as int);
}

proof fn lemma_skip_space_from_bounds(s: Seq<char>, k: int)
    requires
        0 <= k <= s.len(),
    ensures
        k <= skip_space_from(s, k) <= s.len(),
    decreases s.len() - k,
{
    if k < s.len() && is_space(s[k]) {
        lemma_skip_space_from_bounds(s, k + 1);
    }
}

proof fn lemma_skip_space_back_bounds(s: Seq<char>, k: int)
    requires
        0 <= k <= s.len(),
    ensures
        0 <= skip_space_back(s, k) <= k,
    decreases k,
{
    if k > 0 && is_space(s[k - 1]) {
        lemma_skip_space_back_bounds(s, k - 1);
    }
}

/// The characters of `s` without leading and trailing white space.
pub fn trim_chars(s: &Vec<char>) -> (r: Vec<char>)
    ensures
        r@ == trimmed(s@),
{
    let n = s.len();
    let mut a: usize = 0;
    while a < n && char_is_whitespace(s[a])
        invariant
            a <= n == s@.len(),
            skip_space_from(s@, 0) == skip_space_from(s@, a as int),
        decreases n - a,
    {
        a = a + 1;
    }
    let mut b: usize = n;
    while b > 0 && char_is_whitespace(s[b - 1])
        invariant
            b <= n == s@.len(),
            skip_space_back(s@, n as int) == skip_space_back(s@, b as int),
        decreases b,
    {
        b = b - 1;
    }
    let mut r: Vec<char> = Vec::new();
    if a < b {
        let mut i = a;
        while i < b
            invariant
                a <= i <= b <= n == s@.len(),
                r@ == s@.subrange(a as int, i as int),
            decreases b - i,
        {
            r.push(s[i]);
            i = i + 1;
            assert(r@ =~= s@.subrange(a as int, i as int));
        }
    }
    r
}

/// Character-wise equality of two sequences held in vectors.
pub fn chars_eq(a: &Vec<char>, b: &Vec<char>) -> (r: bool)
    ensures
        r == (a@ == b@),
{
    if a.len() != b.len() {
        return false;
    }
    let mut i: usize = 0;
    while i < a.len()
        invariant
            i <= a@.len() == b@.len(),
            a@.take(i as int) == b@.take(i as int),
        decreases a@.len() - i,
    {
        if a[i] != b[i] {
            assert(a@[i as int] != b@[i as int]);
            return false;
        }
        i = i + 1;
        assert(a@.take(i as int) =~= b@.take(i as int));
    }
    assert(a@ =~= a@.take(i as int));
    assert(b@ =~= b@.take(i as int));
    true
}

/// Equality of two strings, character by character.
pub fn str_eq(a: &str, b: &str) -> (r: bool)
    ensures
        r == (a@ == b@),
{
    let x = chars_of(a);
    let y = chars_of(b);
    chars_eq(&x, &y)
}

/// `a` followed by `b`.
pub fn concat_str(a: &str, b: &str) -> (r: String)
    ensures
        r@ == a@ + b@,
{
    let mut x = chars_of(a);
    let y = chars_of(b);
    let mut i: usize = 0;
    while i < y.len()
        invariant
            i <= y@.len(),
            x@ == a@ + y@.take(i as int),
        decreases y@.len() - i,
    {
        x.push(y[i]);
        i = i + 1;
        assert(x@ =~= a@ + y@.take(i as int));
    }
    assert(y@.take(y@.len() as int) =~= y@);
    string_of(&x)
}

/// A copy of `s`.
pub fn copy_string(s: &str) -> (r: String)
    ensures
        r@ == s@,
{
    let c = chars_of(s);
    string_of(&c)
}

/// `i` is the first position of `c` in `s`.
pub open spec fn first_char_at(s: Seq<char>, c: char, i: int) -> bool {
    0 <= i < s.len() && s[i] == c && forall|j: int| 0 <= j < i ==> s[j] != c
}

/// `s` split around the first `c` (as `str::split_once` with a character).
pub open spec fn split_once(s: Seq<char>, c: char) -> Option<(Seq<char>, Seq<char>)> {
    if s.contains(c) {
        let i = choose|i: int| first_char_at(s, c, i);
        Some((s.take(i), s.skip(i + 1)))
    } else {
        None
    }
}

/// The first position of `c` in `s` is unique and exists when `s` holds `c`.
pub proof fn lemma_first_char_at(s: Seq<char>, c: char, i: int)
    requires
        first_char_at(s, c, i),
    ensures
        s.contains(c),
        (choose|k: int| first_char_at(s, c, k)) == i,
{
    assert(s[i] == c);
    let k = choose|k: int| first_char_at(s, c, k);
    assert(first_char_at(s, c, k));
    if k < i {
        assert(s[k] != c);
    } else if k > i {
        assert(s[i] != c);
    }
}

/// Position of the first `c` in `s`, if any.
pub fn find_char(s: &Vec<char>, c: char) -> (r: Option<usize>)
    ensures
        r matches Some(i) ==> first_char_at(s@, c, i as int),
        r is None ==> !s@.contains(c),
{
    let mut i: usize = 0;
    while i < s.len()
        invariant
            i <= s@.len(),
            forall|j: int| 0 <= j < i ==> s@[j] != c,
        decreases s@.len() - i,
    {
        if s[i] == c {
            return Some(i);
        }
        i = i + 1;
    }
    None
}

/// `s` split around the first `c`, as vectors.
pub fn split_once_chars(s: &Vec<char>, c: char) -> (r: Option<(Vec<char>, Vec<char>)>)
    ensures
        r matches Some(p) ==> split_once(s@, c) == Some((p.0@, p.1@)),
        r matches Some(p) ==> s@ == p.0@ + seq![c] + p.1@ && !p.0@.contains(c),
        r is None ==> split_once(s@, c) is None,
{
    match find_char(s, c) {
        None => None,
        Some(i) => {
            proof {
                lemma_first_char_at(s@, c, i as int);
            }
            assert(i < s@.len());
            let mut a: Vec<char> = Vec::new();
            let mut k: usize = 0;
            while k < i
                invariant
                    k <= i < s@.len(),
                    a@ == s@.take(k as int),
                decreases i - k,
            {
                a.push(s[k]);
                k = k + 1;
                assert(a@ =~= s@.take(k as int));
            }
            let mut b: Vec<char> = Vec::new();
            let n = s.len();
            assert(i < n);
            let mut m: usize = i + 1;
            while m < s.len()
                invariant
                    i + 1 <= m <= s@.len(),
                    b@ == s@.subrange(i + 1, m as int),
                decreases s@.len() - m,
            {
                b.push(s[m]);
                m = m + 1;
                assert(b@ =~= s@.subrange(i + 1, m as int));
            }
            assert(b@ =~= s@.skip(i + 1));
            assert(s@ =~= a@ + seq![c] + b@);
            assert(!a@.contains(c)) by {
                if a@.contains(c) {
                    let j = choose|j: int| 0 <= j < a@.len() && a@[j] == c;
                    assert(s@[j] == c);
                }
            }
            Some((a, b))
        },
    }
}

/// The views of a sequence of strings.
pub open spec fn strs(v: Seq<String>) -> Seq<Seq<char>> {
    v.map_values(|s: String| s@)
}

/// `i` is the first position of `x` in `xs`.
pub open spec fn first_str_at(xs: Seq<Seq<char>>, x: Seq<char>, i: int) -> bool {
    0 <= i < xs.len() && xs[i] == x && forall|j: int| 0 <= j < i ==> xs[j] != x
}

/// Position of the first `x` in `xs` (as `Iterator::position` with equality).
pub open spec fn position(xs: Seq<Seq<char>>, x: Seq<char>) -> Option<int> {
    if xs.contains(x) {
        Some(choose|i: int| first_str_at(xs, x, i))
    } else {
        None
    }
}

/// The first position of `x` in `xs` is unique.
pub proof fn lemma_first_str_at(xs: Seq<Seq<char>>, x: Seq<char>, i: int)
    requires
        first_str_at(xs, x, i),
    ensures
        position(xs, x) == Some(i),
{
    assert(xs[i] == x);
    let k = choose|k: int| first_str_at(xs, x, k);
    assert(first_str_at(xs, x, k));
    if k < i {
        assert(xs[k] != x);
    } else if k > i {
        assert(xs[i] != x);
    }
}

/// Where `x` occurs in `xs`, some occurrence is the first.
proof fn lemma_first_occurrence(xs: Seq<Seq<char>>, x: Seq<char>, k: int)
    requires
        0 <= k < xs.len(),
        xs[k] == x,
    ensures
        exists|i: int| first_str_at(xs, x, i),
    decreases k,
{
    if exists|j: int| 0 <= j < k && xs[j] == x {
        let j = choose|j: int| 0 <= j < k && xs[j] == x;
        lemma_first_occurrence(xs, x, j);
    } else {
        assert(first_str_at(xs, x, k));
    }
}

/// `position` names the first occurrence, or none when there is none.
pub proof fn lemma_position(xs: Seq<Seq<char>>, x: Seq<char>)
    ensures
        match position(xs, x) {
            Some(i) => first_str_at(xs, x, i),
            None => !xs.contains(x),
        },
{
    if xs.contains(x) {
        let k = choose|k: int| 0 <= k < xs.len() && xs[k] == x;
        lemma_first_occurrence(xs, x, k);
    }
}

/// Position of the first string equal to `x`.
pub fn position_of(xs: &Vec<String>, x: &str) -> (r: Option<usize>)
    ensures
        r matches Some(i) ==> position(strs(xs@), x@) == Some(i as int),
        r is None ==> position(strs(xs@), x@) is None,
{
    let mut i: usize = 0;
    while i < xs.len()
        invariant
            i <= xs@.len(),
            forall|j: int| 0 <= j < i ==> strs(xs@)[j] != x@,
        decreases xs@.len() - i,
    {
        if str_eq(xs[i].as_str(), x) {
            proof {
                lemma_first_str_at(strs(xs@), x@, i as int);
            }
            return Some(i);
        }
        i = i + 1;
    }
    assert(!strs(xs@).contains(x@)) by {
        if strs(xs@).contains(x@) {
            let k = choose|k: int| 0 <= k < strs(xs@).len() && strs(xs@)[k] == x@;
            assert(strs(xs@)[k] != x@);
        }
    }
    None
}

/// Whether some string in `xs` equals `x`.
pub fn contains_str(xs: &Vec<String>, x: &str) -> (r: bool)
    ensures
        r == strs(xs@).contains(x@),
{
    match position_of(xs, x) {
        Some(_) => true,
        None => false,
    }
}

/// The decimal digit for `d` (below ten).
pub open spec fn digit(d: nat) -> char {
    ((d + 48) as u32) as char
}

/// Decimal notation of `n`, without leading zeros.
pub open spec fn decimal(n: nat) -> Seq<char>
    decreases n,
{
    if n < 10 {
        seq![digit(n)]
    } else {
        decimal(n / 10).push(digit(n % 10))
    }
}

fn digit_char(d: u64) -> (r: char)
    requires
        d < 10,
    ensures
        r == digit(d as nat),
{
    if d == 0 {
        '0'
    } else if d == 1 {
        '1'
    } else if d == 2 {
        '2'
    } else if d == 3 {
        '3'
    } else if d == 4 {
        '4'
    } else if d == 5 {
        '5'
    } else if d == 6 {
        '6'
    } else if d == 7 {
        '7'
    } else if d == 8 {
        '8'
    } else {
        '9'
    }
}

/// Decimal notation of `n` (as `Display` for unsigned integers).
pub fn decimal_string(n: u64) -> (r: String)
    ensures
        r@ == decimal(n as nat),
    decreases n,
{
    if n < 10 {
        let mut s = String::new();
        push_char(&mut s, digit_char(n));
        assert(s@ =~= seq![digit(n as nat)]);
        s
    } else {
        let mut s = decimal_string(n / 10);
        push_char(&mut s, digit_char(n % 10));
        s
    }
}

/// `s` with each occurrence of `pat`, taken from the left without
/// overlap, replaced by `with` (as `str::replace` with a non-empty pattern).
pub open spec fn replaced(s: Seq<char>, pat: Seq<char>, with: Seq<char>) -> Seq<char>
    decreases s.len(),
{
    if s.len() == 0 {
        s
    } else if 0 < pat.len() <= s.len() && s.take(pat.len() as int) == pat {
        with + replaced(s.skip(pat.len() as int), pat, with)
    } else {
        seq![s[0]] + replaced(s.drop_first(), pat, with)
    }
}

/// Whether `pat` occurs in `s` at position `i`.
pub fn occurs_at(s: &Vec<char>, pat: &Vec<char>, i: usize) -> (r: bool)
    requires
        i <= s@.len(),
    ensures
        r == (pat@.len() <= s@.len() - i && s@.subrange(i as int, i + pat@.len()) == pat@),
{
    if pat.len() > s.len() - i {
        return false;
    }
    let n = s.len();
    let mut k: usize = 0;
    while k < pat.len()
        invariant
            n == s@.len(),
            i <= s@.len(),
            k <= pat@.len() <= s@.len() - i,
            forall|j: int| 0 <= j < k ==> s@[i + j] == pat@[j],
        decreases pat@.len() - k,
    {
        if s[i + k] != pat[k] {
            assert(s@.subrange(i as int, i + pat@.len())[k as int] != pat@[k as int]);
            return false;
        }
        k = k + 1;
    }
    assert(s@.subrange(i as int, i + pat@.len()) =~= pat@);
    true
}

/// `s` with every occurrence of `pat` replaced by `with`.
pub fn replace_all(s: &str, pat: &str, with: &str) -> (r: String)
    requires
        pat@.len() > 0,
    ensures
        r@ == replaced(s@, pat@, with@),
{
    let cs = chars_of(s);
    let ps = chars_of(pat);
    let ws = chars_of(with);
    let mut out: Vec<char> = Vec::new();
    let mut i: usize = 0;
    assert(cs@.skip(0) =~= cs@);
    assert(out@ + replaced(cs@, ps@, ws@) =~= replaced(cs@, ps@, ws@));
    while i < cs.len()
        invariant
            i <= cs@.len(),
            cs@ == s@,
            ps@ == pat@,
            ws@ == with@,
            pat@.len() > 0,
            out@ + replaced(cs@.skip(i as int), ps@, ws@) == replaced(cs@, ps@, ws@),
        decreases cs@.len() - i,
    {
        let ghost rest = cs@.skip(i as int);
        if occurs_at(&cs, &ps, i) {
            assert(rest.take(ps@.len() as int) =~= cs@.subrange(i as int, i + ps@.len()));
            assert(rest.skip(ps@.len() as int) =~= cs@.skip(i + ps@.len()));
            let mut k: usize = 0;
            let ghost before = out@;
            while k < ws.len()
                invariant
                    k <= ws@.len(),
                    out@ == before + ws@.take(k as int),
                decreases ws@.len() - k,
            {
                out.push(ws[k]);
                k = k + 1;
                assert(out@ =~= before + ws@.take(k as int));
            }
            assert(ws@.take(ws@.len() as int) =~= ws@);
            assert(out@ + replaced(cs@.skip(i + ps@.len()), ps@, ws@) =~= before + replaced(rest, ps@, ws@));
            i = i + ps.len();
        } else {
            assert(!(0 < ps@.len() <= rest.len() && rest.take(ps@.len() as int) == ps@)) by {
                if ps@.len() <= rest.len() {
                    assert(rest.take(ps@.len() as int) =~= cs@.subrange(i as int, i + ps@.len()));
                }
            }
            assert(rest.drop_first() =~= cs@.skip(i + 1));
            assert(rest[0] == cs@[i as int]);
            let ghost before = out@;
            out.push(cs[i]);
            assert(out@ + replaced(cs@.skip(i + 1), ps@, ws@) =~= before + replaced(rest, ps@, ws@));
            i = i + 1;
        }
    }
    assert(out@ + replaced(cs@.skip(i as int), ps@, ws@) == out@) by {
        assert(cs@.skip(i as int).len() == 0);
    }
    assert(cs@.skip(0) =~= cs@);
    string_of(&out)
}

} // verus!
