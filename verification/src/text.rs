//! Character-sequence operations on strings, each with the specification that the rest of the
//! crate states its contracts in.
use vstd::prelude::*;

verus! {

// ---------------------------------------------------------------------------------------------
// Specifications
// ---------------------------------------------------------------------------------------------

/// Whether `c` has the Unicode `White_Space` property, which is what `char::is_whitespace` tests.
pub open spec fn is_white(c: char) -> bool {
    ||| c == '\t' || c == '\n' || c == '\x0B' || c == '\x0C' || c == '\r' || c == ' '
    ||| c == '\u{85}' || c == '\u{A0}' || c == '\u{1680}'
    ||| ('\u{2000}' <= c && c <= '\u{200A}')
    ||| c == '\u{2028}' || c == '\u{2029}' || c == '\u{202F}' || c == '\u{205F}' || c == '\u{3000}'
}

/// `s` without the leading characters that satisfy `p`.
pub open spec fn trim_start_by(s: Seq<char>, p: spec_fn(char) -> bool) -> Seq<char>
    decreases s.len(),
{
    if s.len() > 0 && p(s[0]) {
        trim_start_by(s.drop_first(), p)
    } else {
        s
    }
}

/// `s` without the trailing characters that satisfy `p`.
pub open spec fn trim_end_by(s: Seq<char>, p: spec_fn(char) -> bool) -> Seq<char>
    decreases s.len(),
{
    if s.len() > 0 && p(s.last()) {
        trim_end_by(s.drop_last(), p)
    } else {
        s
    }
}

/// The whitespace predicate as a spec closure.
pub open spec fn white_pred() -> spec_fn(char) -> bool {
    |c: char| is_white(c)
}

/// The predicate "is exactly `c`" as a spec closure.
pub open spec fn char_pred(c: char) -> spec_fn(char) -> bool {
    |x: char| x == c
}

/// What `str::trim` returns: `s` without leading and trailing whitespace.
pub open spec fn trim_ws(s: Seq<char>) -> Seq<char> {
    trim_end_by(trim_start_by(s, white_pred()), white_pred())
}

/// What `str::trim_matches(c)` returns for a single character `c`.
pub open spec fn trim_char(s: Seq<char>, c: char) -> Seq<char> {
    trim_end_by(trim_start_by(s, char_pred(c)), char_pred(c))
}

/// What `str::trim_end_matches(c)` returns for a single character `c`.
pub open spec fn trim_end_char(s: Seq<char>, c: char) -> Seq<char> {
    trim_end_by(s, char_pred(c))
}

/// Whether `s` begins with `p`.
pub open spec fn has_prefix(s: Seq<char>, p: Seq<char>) -> bool {
    p.len() <= s.len() && s.subrange(0, p.len() as int) == p
}

/// Whether `s` ends with `p`.
pub open spec fn has_suffix(s: Seq<char>, p: Seq<char>) -> bool {
    p.len() <= s.len() && s.subrange(s.len() - p.len(), s.len() as int) == p
}

/// Whether `p` occurs in `s` at position `i`.
pub open spec fn occurs_at(s: Seq<char>, p: Seq<char>, i: int) -> bool {
    0 <= i && i + p.len() <= s.len() && s.subrange(i, i + p.len()) == p
}

/// The first position, at or after `from`, at which `p` occurs in `s`.
pub open spec fn find_from(s: Seq<char>, p: Seq<char>, from: int) -> Option<int>
    decreases s.len() + 1 - from,
{
    if from < 0 || from + p.len() > s.len() {
        None
    } else if occurs_at(s, p, from) {
        Some(from)
    } else {
        find_from(s, p, from + 1)
    }
}

/// The first position at which `p` occurs in `s`, as `str::find` reports it.
pub open spec fn find_seq(s: Seq<char>, p: Seq<char>) -> Option<int> {
    find_from(s, p, 0)
}

/// Whether `p` occurs anywhere in `s`.
pub open spec fn contains_seq(s: Seq<char>, p: Seq<char>) -> bool {
    exists|i: int| occurs_at(s, p, i)
}

/// The first position of the character `c` in `s`.
pub open spec fn find_char(s: Seq<char>, c: char) -> Option<int> {
    find_seq(s, seq![c])
}

/// What `str::replacen(from, to, 1)` returns.
pub open spec fn replace_first(s: Seq<char>, from: Seq<char>, to: Seq<char>) -> Seq<char> {
    match find_seq(s, from) {
        Some(i) => s.subrange(0, i) + to + s.subrange(i + from.len(), s.len() as int),
        None => s,
    }
}

/// `s` with every `a` replaced by `b`.
pub open spec fn replace_char(s: Seq<char>, a: char, b: char) -> Seq<char> {
    s.map_values(|x: char| if x == a { b } else { x })
}

/// Whether `c` is an ASCII lower-case letter.
pub open spec fn is_ascii_lower(c: char) -> bool {
    'a' <= c && c <= 'z'
}

/// What `char::to_ascii_uppercase` returns.
pub open spec fn ascii_upper_char(c: char) -> char {
    if is_ascii_lower(c) {
        ((c as u32) - 32) as char
    } else {
        c
    }
}

/// What `str::to_ascii_uppercase` returns.
pub open spec fn ascii_upper(s: Seq<char>) -> Seq<char> {
    s.map_values(|c: char| ascii_upper_char(c))
}

/// What `char::to_ascii_lowercase` returns.
pub open spec fn ascii_lower_char(c: char) -> char {
    if 'A' <= c && c <= 'Z' {
        ((c as u32) + 32) as char
    } else {
        c
    }
}

/// Whether `a` and `b` are equal ignoring ASCII case, as `str::eq_ignore_ascii_case` decides.
pub open spec fn eq_ignore_ascii_case(a: Seq<char>, b: Seq<char>) -> bool {
    a.len() == b.len() && forall|i: int|
        0 <= i < a.len() ==> ascii_lower_char(#[trigger] a[i]) == ascii_lower_char(b[i])
}

/// The part of `s` before the first `c`, or all of `s`: `s.split(c).next()`.
pub open spec fn before_char(s: Seq<char>, c: char) -> Seq<char> {
    match find_char(s, c) {
        Some(i) => s.subrange(0, i),
        None => s,
    }
}

/// The part of `s` after the first `c`, if `c` occurs in `s`.
pub open spec fn after_char(s: Seq<char>, c: char) -> Option<Seq<char>> {
    match find_char(s, c) {
        Some(i) => Some(s.subrange(i + 1, s.len() as int)),
        None => None,
    }
}

/// `s.split(c).nth(1)`: the second piece of `s` split on `c`, if there is one.
pub open spec fn second_piece(s: Seq<char>, c: char) -> Option<Seq<char>> {
    match after_char(s, c) {
        Some(rest) => Some(before_char(rest, c)),
        None => None,
    }
}

/// The pieces of `s` split on `sep`, as `str::split` yields them.
pub open spec fn split_on(s: Seq<char>, sep: char) -> Seq<Seq<char>>
    decreases s.len(),
{
    match find_char(s, sep) {
        Some(i) => {
            if 0 <= i < s.len() {
                seq![s.subrange(0, i)] + split_on(s.subrange(i + 1, s.len() as int), sep)
            } else {
                seq![s]
            }
        },
        None => seq![s],
    }
}

/// The pieces joined with `sep` between them, as `[String]::join` builds them.
pub open spec fn join_with(pieces: Seq<Seq<char>>, sep: Seq<char>) -> Seq<char>
    decreases pieces.len(),
{
    if pieces.len() == 0 {
        seq![]
    } else if pieces.len() == 1 {
        pieces[0]
    } else {
        join_with(pieces.drop_last(), sep) + sep + pieces.last()
    }
}

/// The concatenation of all pieces.
pub open spec fn concat_all(pieces: Seq<Seq<char>>) -> Seq<char>
    decreases pieces.len(),
{
    if pieces.len() == 0 {
        seq![]
    } else {
        concat_all(pieces.drop_last()) + pieces.last()
    }
}

/// The lines of `s`, as `str::lines` yields them: split after each `\n`, each without its `\n`
/// and without a `\r` just before it; nothing follows a final `\n`.
pub open spec fn lines_of(s: Seq<char>) -> Seq<Seq<char>>
    decreases s.len(),
{
    if s.len() == 0 {
        seq![]
    } else {
        match find_char(s, '\n') {
            None => seq![s],
            Some(i) => if 0 <= i < s.len() {
                let line = s.subrange(0, i);
                seq![if has_suffix(line, "\r"@) { line.drop_last() } else { line }] + lines_of(
                    s.subrange(i + 1, s.len() as int),
                )
            } else {
                seq![s]
            },
        }
    }
}

/// `s` with every occurrence of the non-empty `from`, found left to right, replaced by `to`,
/// as `str::replace` does.
pub open spec fn replace_all(s: Seq<char>, from: Seq<char>, to: Seq<char>) -> Seq<char>
    decreases s.len(),
{
    if from.len() == 0 {
        s
    } else {
        match find_seq(s, from) {
            None => s,
            Some(i) => if 0 <= i && i + from.len() <= s.len() {
                s.subrange(0, i) + to + replace_all(s.subrange(i + from.len(), s.len() as int), from, to)
            } else {
                s
            },
        }
    }
}

/// Lexicographic order of character sequences by code point, which is how `String`s compare.
pub open spec fn lex_lt(a: Seq<char>, b: Seq<char>) -> bool
    decreases a.len(),
{
    if a.len() == 0 {
        b.len() > 0
    } else if b.len() == 0 {
        false
    } else if a[0] != b[0] {
        a[0] < b[0]
    } else {
        lex_lt(a.drop_first(), b.drop_first())
    }
}

/// `a` is not after `b` in the order of `String`s.
pub open spec fn lex_le(a: Seq<char>, b: Seq<char>) -> bool {
    a == b || lex_lt(a, b)
}

// ---------------------------------------------------------------------------------------------
// Lemmas
// ---------------------------------------------------------------------------------------------

pub proof fn lemma_trim_start_at(s: Seq<char>, p: spec_fn(char) -> bool, i: int)
    requires
        0 <= i <= s.len(),
        forall|j: int| 0 <= j < i ==> p(#[trigger] s[j]),
        i == s.len() || !p(s[i]),
    ensures
        trim_start_by(s, p) == s.subrange(i, s.len() as int),
    decreases i,
{
    if i == 0 {
        assert(s.subrange(0, s.len() as int) =~= s);
    } else {
        let t = s.drop_first();
        assert forall|j: int| 0 <= j < i - 1 implies p(#[trigger] t[j]) by {
            assert(t[j] == s[j + 1]);
        }
        lemma_trim_start_at(t, p, i - 1);
        assert(t.subrange(i - 1, t.len() as int) =~= s.subrange(i, s.len() as int));
    }
}

pub proof fn lemma_trim_end_at(s: Seq<char>, p: spec_fn(char) -> bool, k: int)
    requires
        0 <= k <= s.len(),
        forall|j: int| k <= j < s.len() ==> p(#[trigger] s[j]),
        k == 0 || !p(s[k - 1]),
    ensures
        trim_end_by(s, p) == s.subrange(0, k),
    decreases s.len() - k,
{
    if k == s.len() {
        assert(s.subrange(0, k) =~= s);
    } else {
        let t = s.drop_last();
        assert forall|j: int| k <= j < t.len() implies p(#[trigger] t[j]) by {
            assert(t[j] == s[j]);
        }
        if k > 0 {
            assert(t[k - 1] == s[k - 1]);
        }
        lemma_trim_end_at(t, p, k);
        assert(t.subrange(0, k) =~= s.subrange(0, k));
    }
}

pub proof fn lemma_find_from_none(s: Seq<char>, p: Seq<char>, from: int)
    requires
        0 <= from,
        forall|j: int| from <= j ==> !occurs_at(s, p, j),
    ensures
        find_from(s, p, from) is None,
    decreases s.len() + 1 - from,
{
    if from + p.len() > s.len() {
    } else {
        lemma_find_from_none(s, p, from + 1);
    }
}

pub proof fn lemma_find_from_some(s: Seq<char>, p: Seq<char>, from: int, k: int)
    requires
        0 <= from <= k,
        occurs_at(s, p, k),
        forall|j: int| from <= j < k ==> !occurs_at(s, p, j),
    ensures
        find_from(s, p, from) == Some(k),
    decreases k - from,
{
    if from == k {
    } else {
        lemma_find_from_some(s, p, from + 1, k);
    }
}

/// `find_seq` gives the first occurrence, and there is one exactly when `p` occurs in `s`.
pub proof fn lemma_find_seq(s: Seq<char>, p: Seq<char>)
    ensures
        find_seq(s, p) is Some <==> contains_seq(s, p),
        find_seq(s, p) matches Some(i) ==> occurs_at(s, p, i) && forall|j: int|
            0 <= j < i ==> !occurs_at(s, p, j),
{
    if contains_seq(s, p) {
        let w = choose|i: int| occurs_at(s, p, i);
        lemma_first_occurrence(s, p, w);
    } else {
        lemma_find_from_none(s, p, 0);
    }
}

proof fn lemma_first_occurrence(s: Seq<char>, p: Seq<char>, w: int)
    requires
        occurs_at(s, p, w),
    ensures
        find_seq(s, p) is Some,
        find_seq(s, p) matches Some(i) ==> occurs_at(s, p, i) && forall|j: int|
            0 <= j < i ==> !occurs_at(s, p, j),
    decreases w,
{
    if exists|j: int| 0 <= j < w && occurs_at(s, p, j) {
        let j = choose|j: int| 0 <= j < w && occurs_at(s, p, j);
        lemma_first_occurrence(s, p, j);
    } else {
        lemma_find_from_some(s, p, 0, w);
    }
}

/// A string that neither begins nor ends with whitespace is its own trimmed form.
pub proof fn lemma_trim_ws_plain(s: Seq<char>)
    requires
        s.len() > 0,
        !is_white(s[0]),
        !is_white(s.last()),
    ensures
        trim_ws(s) == s,
{
    lemma_trim_start_at(s, white_pred(), 0);
    assert(s.subrange(0, s.len() as int) =~= s);
    lemma_trim_end_at(s, white_pred(), s.len() as int);
}

/// The first position of `c` in `s` is `i` when `s[i]` is `c` and no earlier character is.
pub proof fn lemma_find_char_at(s: Seq<char>, c: char, i: int)
    requires
        0 <= i < s.len(),
        s[i] == c,
        forall|j: int| 0 <= j < i ==> #[trigger] s[j] != c,
    ensures
        find_char(s, c) == Some(i),
{
    let p = seq![c];
    assert(s.subrange(i, i + 1) =~= p);
    assert forall|j: int| 0 <= j < i implies !occurs_at(s, p, j) by {
        if occurs_at(s, p, j) {
            assert(s.subrange(j, j + 1)[0] == s[j]);
        }
    }
    lemma_find_from_some(s, p, 0, i);
}

/// `c` has no position in a string that does not hold it.
pub proof fn lemma_find_char_none(s: Seq<char>, c: char)
    requires
        forall|j: int| 0 <= j < s.len() ==> #[trigger] s[j] != c,
    ensures
        find_char(s, c) is None,
{
    let p = seq![c];
    assert forall|j: int| 0 <= j implies !occurs_at(s, p, j) by {
        if occurs_at(s, p, j) {
            assert(s.subrange(j, j + 1)[0] == s[j]);
        }
    }
    lemma_find_from_none(s, p, 0);
}

/// Splitting on `c` gives the part before the first `c`, then the pieces of what follows it;
/// or the whole string when it holds no `c`.
pub proof fn lemma_split_on_unfold(s: Seq<char>, c: char)
    ensures
        split_on(s, c).len() >= 1,
        after_char(s, c) is None ==> split_on(s, c) == seq![s] && before_char(s, c) == s,
        after_char(s, c) matches Some(t) ==> split_on(s, c) == seq![before_char(s, c)] + split_on(t, c),
{
    lemma_find_seq(s, seq![c]);
}

pub proof fn lemma_lex_lt_irreflexive(a: Seq<char>)
    ensures
        !lex_lt(a, a),
    decreases a.len(),
{
    if a.len() > 0 {
        lemma_lex_lt_irreflexive(a.drop_first());
    }
}

pub proof fn lemma_lex_lt_asymmetric(a: Seq<char>, b: Seq<char>)
    ensures
        lex_lt(a, b) ==> !lex_lt(b, a),
    decreases a.len(),
{
    if a.len() > 0 && b.len() > 0 && a[0] == b[0] {
        lemma_lex_lt_asymmetric(a.drop_first(), b.drop_first());
    }
}

pub proof fn lemma_lex_lt_transitive(a: Seq<char>, b: Seq<char>, c: Seq<char>)
    requires
        lex_lt(a, b),
        lex_lt(b, c),
    ensures
        lex_lt(a, c),
    decreases a.len(),
{
    if a.len() > 0 && b.len() > 0 && c.len() > 0 && a[0] == b[0] && b[0] == c[0] {
        lemma_lex_lt_transitive(a.drop_first(), b.drop_first(), c.drop_first());
    }
}

pub proof fn lemma_lex_lt_total(a: Seq<char>, b: Seq<char>)
    ensures
        a == b || lex_lt(a, b) || lex_lt(b, a),
    decreases a.len(),
{
    if a.len() == 0 && b.len() == 0 {
        assert(a =~= b);
    } else if a.len() == 0 || b.len() == 0 {
    } else if a[0] != b[0] {
    } else {
        lemma_lex_lt_total(a.drop_first(), b.drop_first());
        if a.drop_first() == b.drop_first() {
            assert(a =~= seq![a[0]] + a.drop_first());
            assert(b =~= seq![b[0]] + b.drop_first());
        }
    }
}

// ---------------------------------------------------------------------------------------------
// Executable operations
// ---------------------------------------------------------------------------------------------

/// `char::is_whitespace`.
pub fn char_is_white(c: char) -> (r: bool)
    ensures
        r == is_white(c),
{
    c == '\t' || c == '\n' || c == '\x0B' || c == '\x0C' || c == '\r' || c == ' ' || c == '\u{85}'
        || c == '\u{A0}' || c == '\u{1680}' || ('\u{2000}' <= c && c <= '\u{200A}') || c
        == '\u{2028}' || c == '\u{2029}' || c == '\u{202F}' || c == '\u{205F}' || c == '\u{3000}'
}

/// `String::push`: appends one character.
#[verifier::external_body]
pub fn push_char(s: &mut String, c: char)
    ensures
        final(s)@ == old(s)@.push(c),
{
    s.push(c)
}

/// An owned copy of `s`.
pub fn owned(s: &str) -> (r: String)
    ensures
        r@ == s@,
{
    String::from_str(s)
}

/// `a` followed by `b`.
pub fn cat(a: &str, b: &str) -> (r: String)
    ensures
        r@ == a@ + b@,
{
    let mut r = String::from_str(a);
    r.append(b);
    r
}

/// `a`, `b` and `c` one after the other.
pub fn cat3(a: &str, b: &str, c: &str) -> (r: String)
    ensures
        r@ == a@ + b@ + c@,
{
    let mut r = String::from_str(a);
    r.append(b);
    r.append(c);
    r
}

/// Whether `a` and `b` hold the same characters.
pub fn str_eq(a: &str, b: &str) -> (r: bool)
    ensures
        r == (a@ == b@),
{
    let n = a.unicode_len();
    let m = b.unicode_len();
    if n != m {
        return false;
    }
    let mut i: usize = 0;
    while i < n
        invariant
            n == a@.len(),
            m == b@.len(),
            n == m,
            i <= n,
            forall|j: int| 0 <= j < i ==> a@[j] == b@[j],
        decreases n - i,
    {
        if a.get_char(i) != b.get_char(i) {
            return false;
        }
        i += 1;
    }
    assert(a@ =~= b@);
    true
}

/// Whether `p` occurs in `s` at character position `i`.
pub fn occurs_at_exec(s: &str, p: &str, i: usize) -> (r: bool)
    requires
        i <= s@.len(),
    ensures
        r == occurs_at(s@, p@, i as int),
{
    let n = s.unicode_len();
    let m = p.unicode_len();
    if m > n - i {
        return false;
    }
    let mut k: usize = 0;
    while k < m
        invariant
            n == s@.len(),
            m == p@.len(),
            i + m <= n,
            k <= m,
            forall|j: int| 0 <= j < k ==> s@[i + j] == p@[j],
        decreases m - k,
    {
        if s.get_char(i + k) != p.get_char(k) {
            assert(s@.subrange(i as int, i + m)[k as int] != p@[k as int]);
            return false;
        }
        k += 1;
    }
    assert(s@.subrange(i as int, i + m) =~= p@);
    true
}

/// `str::starts_with`.
pub fn starts_with(s: &str, p: &str) -> (r: bool)
    ensures
        r == has_prefix(s@, p@),
{
    occurs_at_exec(s, p, 0)
}

/// `str::ends_with`.
pub fn ends_with(s: &str, p: &str) -> (r: bool)
    ensures
        r == has_suffix(s@, p@),
{
    let n = s.unicode_len();
    let m = p.unicode_len();
    if m > n {
        false
    } else {
        occurs_at_exec(s, p, n - m)
    }
}

/// `str::strip_prefix`.
pub fn strip_prefix<'a>(s: &'a str, p: &str) -> (r: Option<&'a str>)
    ensures
        r is Some <==> has_prefix(s@, p@),
        r matches Some(t) ==> t@ == s@.subrange(p@.len() as int, s@.len() as int),
{
    if starts_with(s, p) {
        let n = s.unicode_len();
        let m = p.unicode_len();
        Some(s.substring_char(m, n))
    } else {
        None
    }
}

/// `str::strip_suffix`.
pub fn strip_suffix<'a>(s: &'a str, p: &str) -> (r: Option<&'a str>)
    ensures
        r is Some <==> has_suffix(s@, p@),
        r matches Some(t) ==> t@ == s@.subrange(0, s@.len() - p@.len()),
{
    if ends_with(s, p) {
        let n = s.unicode_len();
        let m = p.unicode_len();
        Some(s.substring_char(0, n - m))
    } else {
        None
    }
}

/// `str::find` for a string pattern, as a character position.
pub fn find(s: &str, p: &str) -> (r: Option<usize>)
    ensures
        r matches Some(i) ==> find_seq(s@, p@) == Some(i as int),
        r is None ==> find_seq(s@, p@) is None,
{
    let n = s.unicode_len();
    let m = p.unicode_len();
    if m > n {
        proof {
            lemma_find_from_none(s@, p@, 0);
        }
        return None;
    }
    let last = n - m;
    let mut i: usize = 0;
    loop
        invariant
            n == s@.len(),
            m == p@.len(),
            m <= n,
            last == n - m,
            i <= last,
            forall|j: int| 0 <= j < i ==> !occurs_at(s@, p@, j),
        decreases last - i,
    {
        if occurs_at_exec(s, p, i) {
            proof {
                lemma_find_from_some(s@, p@, 0, i as int);
            }
            return Some(i);
        }
        if i == last {
            proof {
                assert forall|j: int| 0 <= j implies !occurs_at(s@, p@, j) by {}
                lemma_find_from_none(s@, p@, 0);
            }
            return None;
        }
        i += 1;
    }
}

/// `str::contains` for a string pattern.
pub fn contains(s: &str, p: &str) -> (r: bool)
    ensures
        r == contains_seq(s@, p@),
{
    proof {
        lemma_find_seq(s@, p@);
    }
    find(s, p).is_some()
}

/// The first position of the character `c` in `s`.
pub fn find_char_exec(s: &str, c: char) -> (r: Option<usize>)
    ensures
        r matches Some(i) ==> find_char(s@, c) == Some(i as int) && i < s@.len() && s@[i as int]
            == c,
        r is None ==> find_char(s@, c) is None,
{
    let n = s.unicode_len();
    let mut i: usize = 0;
    while i < n
        invariant
            n == s@.len(),
            i <= n,
            forall|j: int| 0 <= j < i ==> s@[j] != c,
        decreases n - i,
    {
        if s.get_char(i) == c {
            proof {
                assert forall|j: int| 0 <= j < i implies !occurs_at(s@, seq![c], j) by {
                    assert(s@.subrange(j, j + 1)[0] == s@[j]);
                }
                assert(s@.subrange(i as int, i + 1) =~= seq![c]);
                lemma_find_from_some(s@, seq![c], 0, i as int);
            }
            return Some(i);
        }
        i += 1;
    }
    proof {
        assert forall|j: int| 0 <= j implies !occurs_at(s@, seq![c], j) by {
            if occurs_at(s@, seq![c], j) {
                assert(s@.subrange(j, j + 1)[0] == s@[j]);
            }
        }
        lemma_find_from_none(s@, seq![c], 0);
    }
    None
}

/// `str::trim`.
pub fn trim(s: &str) -> (r: &str)
    ensures
        r@ == trim_ws(s@),
{
    let n = s.unicode_len();
    let mut i: usize = 0;
    while i < n && char_is_white(s.get_char(i))
        invariant
            n == s@.len(),
            i <= n,
            forall|j: int| 0 <= j < i ==> is_white(#[trigger] s@[j]),
        decreases n - i,
    {
        i += 1;
    }
    proof {
        lemma_trim_start_at(s@, white_pred(), i as int);
    }
    let mut k: usize = n;
    while k > i && char_is_white(s.get_char(k - 1))
        invariant
            n == s@.len(),
            i <= k <= n,
            forall|j: int| k <= j < n ==> is_white(#[trigger] s@[j]),
        decreases k,
    {
        k -= 1;
    }
    let r = s.substring_char(i, k);
    proof {
        let t = s@.subrange(i as int, n as int);
        assert forall|j: int| k - i <= j < t.len() implies white_pred()(#[trigger] t[j]) by {
            assert(t[j] == s@[i + j]);
        }
        if k > i {
            assert(t[k - i - 1] == s@[k - 1]);
        }
        lemma_trim_end_at(t, white_pred(), k - i);
        assert(t.subrange(0, k - i) =~= s@.subrange(i as int, k as int));
    }
    r
}

/// `str::trim_matches(c)` for a single character.
pub fn trim_matches_char(s: &str, c: char) -> (r: &str)
    ensures
        r@ == trim_char(s@, c),
{
    let n = s.unicode_len();
    let mut i: usize = 0;
    while i < n && s.get_char(i) == c
        invariant
            n == s@.len(),
            i <= n,
            forall|j: int| 0 <= j < i ==> #[trigger] s@[j] == c,
        decreases n - i,
    {
        i += 1;
    }
    proof {
        assert forall|j: int| 0 <= j < i implies char_pred(c)(#[trigger] s@[j]) by {}
        lemma_trim_start_at(s@, char_pred(c), i as int);
    }
    let mut k: usize = n;
    while k > i && s.get_char(k - 1) == c
        invariant
            n == s@.len(),
            i <= k <= n,
            forall|j: int| k <= j < n ==> #[trigger] s@[j] == c,
        decreases k,
    {
        k -= 1;
    }
    let r = s.substring_char(i, k);
    proof {
        let t = s@.subrange(i as int, n as int);
        assert forall|j: int| k - i <= j < t.len() implies char_pred(c)(#[trigger] t[j]) by {
            assert(t[j] == s@[i + j]);
        }
        if k > i {
            assert(t[k - i - 1] == s@[k - 1]);
        }
        lemma_trim_end_at(t, char_pred(c), k - i);
        assert(t.subrange(0, k - i) =~= s@.subrange(i as int, k as int));
    }
    r
}

/// `str::trim_end_matches(c)` for a single character.
pub fn trim_end_matches_char(s: &str, c: char) -> (r: &str)
    ensures
        r@ == trim_end_char(s@, c),
{
    let n = s.unicode_len();
    let mut k: usize = n;
    while k > 0 && s.get_char(k - 1) == c
        invariant
            n == s@.len(),
            k <= n,
            forall|j: int| k <= j < n ==> #[trigger] s@[j] == c,
        decreases k,
    {
        k -= 1;
    }
    proof {
        assert forall|j: int| k <= j < n implies char_pred(c)(#[trigger] s@[j]) by {}
        lemma_trim_end_at(s@, char_pred(c), k as int);
    }
    s.substring_char(0, k)
}

/// `str::replacen(from, to, 1)`.
pub fn replacen_once(s: &str, from: &str, to: &str) -> (r: String)
    ensures
        r@ == replace_first(s@, from@, to@),
{
    match find(s, from) {
        Some(i) => {
            proof {
                lemma_find_seq(s@, from@);
            }
            let n = s.unicode_len();
            let m = from.unicode_len();
            let mut r = String::from_str(s.substring_char(0, i));
            r.append(to);
            r.append(s.substring_char(i + m, n));
            r
        },
        None => String::from_str(s),
    }
}

/// `str::replace(a, b)` for single characters.
pub fn replace_char_exec(s: &str, a: char, b: char) -> (r: String)
    ensures
        r@ == replace_char(s@, a, b),
{
    let n = s.unicode_len();
    let mut r = String::new();
    let mut i: usize = 0;
    while i < n
        invariant
            n == s@.len(),
            i <= n,
            r@ == replace_char(s@.subrange(0, i as int), a, b),
        decreases n - i,
    {
        let c = s.get_char(i);
        if c == a {
            push_char(&mut r, b);
        } else {
            push_char(&mut r, c);
        }
        assert(replace_char(s@.subrange(0, i + 1), a, b) =~= replace_char(
            s@.subrange(0, i as int),
            a,
            b,
        ).push(if c == a { b } else { c }));
        i += 1;
    }
    assert(s@.subrange(0, n as int) =~= s@);
    r
}

/// `char::to_ascii_uppercase`.
pub fn ascii_upper_char_exec(c: char) -> (r: char)
    ensures
        r == ascii_upper_char(c),
{
    if 'a' <= c && c <= 'z' {
        let v = (c as u32) - 32;
        assert(v == (c as u32) - 32);
        let r = char_from_ascii_code(v);
        r
    } else {
        c
    }
}

/// The character with the given code, for codes below 128.
fn char_from_ascii_code(v: u32) -> (r: char)
    requires
        v < 128,
    ensures
        r == v as char,
        r as u32 == v,
{
    let b = v as u8;
    b as char
}

/// `str::to_ascii_uppercase`.
pub fn ascii_upper_exec(s: &str) -> (r: String)
    ensures
        r@ == ascii_upper(s@),
{
    let n = s.unicode_len();
    let mut r = String::new();
    let mut i: usize = 0;
    while i < n
        invariant
            n == s@.len(),
            i <= n,
            r@ == ascii_upper(s@.subrange(0, i as int)),
        decreases n - i,
    {
        let c = s.get_char(i);
        push_char(&mut r, ascii_upper_char_exec(c));
        assert(ascii_upper(s@.subrange(0, i + 1)) =~= ascii_upper(s@.subrange(0, i as int)).push(
            ascii_upper_char(c),
        ));
        i += 1;
    }
    assert(s@.subrange(0, n as int) =~= s@);
    r
}

/// `char::to_ascii_lowercase`.
pub fn ascii_lower_char_exec(c: char) -> (r: char)
    ensures
        r == ascii_lower_char(c),
{
    if 'A' <= c && c <= 'Z' {
        let v = (c as u32) + 32;
        char_from_ascii_code(v)
    } else {
        c
    }
}

/// `str::eq_ignore_ascii_case`.
pub fn eq_ignore_ascii_case_exec(a: &str, b: &str) -> (r: bool)
    ensures
        r == eq_ignore_ascii_case(a@, b@),
{
    let n = a.unicode_len();
    let m = b.unicode_len();
    if n != m {
        return false;
    }
    let mut i: usize = 0;
    while i < n
        invariant
            n == a@.len(),
            m == b@.len(),
            n == m,
            i <= n,
            forall|j: int| 0 <= j < i ==> ascii_lower_char(#[trigger] a@[j]) == ascii_lower_char(
                b@[j],
            ),
        decreases n - i,
    {
        if ascii_lower_char_exec(a.get_char(i)) != ascii_lower_char_exec(b.get_char(i)) {
            return false;
        }
        i += 1;
    }
    true
}

/// `s.split(c).next()`: the part of `s` before the first `c`.
pub fn before_char_exec(s: &str, c: char) -> (r: &str)
    ensures
        r@ == before_char(s@, c),
{
    match find_char_exec(s, c) {
        Some(i) => s.substring_char(0, i),
        None => s,
    }
}

/// The part of `s` after the first `c`, if any.
pub fn after_char_exec(s: &str, c: char) -> (r: Option<&str>)
    ensures
        r is Some <==> after_char(s@, c) is Some,
        r matches Some(t) ==> after_char(s@, c) == Some(t@),
{
    match find_char_exec(s, c) {
        Some(i) => {
            let n = s.unicode_len();
            Some(s.substring_char(i + 1, n))
        },
        None => None,
    }
}

/// Whether `a` sorts before `b` as `String`s do.
pub fn lex_lt_exec(a: &str, b: &str) -> (r: bool)
    ensures
        r == lex_lt(a@, b@),
{
    let n = a.unicode_len();
    let m = b.unicode_len();
    let mut i: usize = 0;
    assert(a@.subrange(0, n as int) =~= a@);
    assert(b@.subrange(0, m as int) =~= b@);
    while i < n && i < m
        invariant
            n == a@.len(),
            m == b@.len(),
            i <= n,
            i <= m,
            lex_lt(a@, b@) == lex_lt(a@.subrange(i as int, n as int), b@.subrange(i as int, m as int)),
        decreases n - i,
    {
        let x = a.get_char(i);
        let y = b.get_char(i);
        let ghost sa = a@.subrange(i as int, n as int);
        let ghost sb = b@.subrange(i as int, m as int);
        assert(sa[0] == x && sb[0] == y);
        if x != y {
            return x < y;
        }
        assert(sa.drop_first() =~= a@.subrange(i + 1, n as int));
        assert(sb.drop_first() =~= b@.subrange(i + 1, m as int));
        i += 1;
    }
    i == n && i < m
}

/// `str::lines`, collected.
pub fn split_lines(s: &str) -> (r: Vec<String>)
    ensures
        r@.map_values(|l: String| l@) == lines_of(s@),
{
    let mut out: Vec<String> = Vec::new();
    let mut rest: &str = s;
    proof {
        reveal_strlit("\r");
    }
    assert(out@.map_values(|l: String| l@) =~= Seq::<Seq<char>>::empty());
    assert(lines_of(s@) =~= Seq::<Seq<char>>::empty() + lines_of(rest@));
    while rest.unicode_len() > 0
        invariant
            lines_of(s@) == out@.map_values(|l: String| l@) + lines_of(rest@),
        decreases rest@.len(),
    {
        proof {
            reveal_strlit("\r");
            reveal_strlit("");
            assert(lines_of(""@) =~= Seq::<Seq<char>>::empty());
        }
        let n = rest.unicode_len();
        match find_char_exec(rest, '\n') {
            None => {
                let ghost before = out@.map_values(|l: String| l@);
                out.push(owned(rest));
                assert(out@.map_values(|l: String| l@) =~= before.push(rest@));
                assert(lines_of(rest@) == seq![rest@]);
                assert(lines_of(s@) =~= out@.map_values(|l: String| l@));
                rest = "";
            },
            Some(i) => {
                let line = rest.substring_char(0, i);
                let piece = match strip_suffix(line, "\r") {
                    Some(l) => {
                        assert(l@ =~= line@.drop_last());
                        l
                    },
                    None => line,
                };
                let ghost before = out@.map_values(|l: String| l@);
                out.push(owned(piece));
                assert(out@.map_values(|l: String| l@) =~= before.push(piece@));
                let next = rest.substring_char(i + 1, n);
                assert(lines_of(rest@) == seq![piece@] + lines_of(next@));
                assert(before + (seq![piece@] + lines_of(next@)) =~= before.push(piece@) + lines_of(next@));
                rest = next;
            },
        }
    }
    proof {
        assert(rest@.len() == 0);
        assert(lines_of(rest@) =~= Seq::<Seq<char>>::empty());
        assert(out@.map_values(|l: String| l@) + lines_of(rest@) =~= out@.map_values(|l: String| l@));
    }
    out
}

/// `str::replace` with a non-empty pattern.
pub fn replace_all_exec(s: &str, from: &str, to: &str) -> (r: String)
    requires
        from@.len() > 0,
    ensures
        r@ == replace_all(s@, from@, to@),
{
    let m = from.unicode_len();
    let mut out = String::new();
    let mut rest: &str = s;
    assert(replace_all(s@, from@, to@) =~= out@ + replace_all(rest@, from@, to@));
    loop
        invariant
            m == from@.len(),
            m > 0,
            replace_all(s@, from@, to@) == out@ + replace_all(rest@, from@, to@),
        decreases rest@.len(),
    {
        match find(rest, from) {
            None => {
                out.append(rest);
                return out;
            },
            Some(i) => {
                proof {
                    lemma_find_seq(rest@, from@);
                }
                let n = rest.unicode_len();
                out.append(rest.substring_char(0, i));
                out.append(to);
                let next = rest.substring_char(i + m, n);
                assert(replace_all(rest@, from@, to@) == rest@.subrange(0, i as int) + to@ + replace_all(next@, from@, to@));
                assert(out@ + replace_all(next@, from@, to@) =~= replace_all(s@, from@, to@));
                rest = next;
            },
        }
    }
}

} // verus!
