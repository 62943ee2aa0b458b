//! Regular-expression filters over names, with the regex engine of `fancy_regex`.
use vstd::prelude::*;
use crate::error::{GitError, OutsideFailure};
use crate::text::owned;

verus! {

/// The compiled regular expression type of `fancy_regex`.
#[verifier::external_type_specification]
#[verifier::external_body]
pub struct ExRegex(fancy_regex::Regex);

/// Whether `fancy_regex::Regex::new` accepts `pattern`.
pub uninterp spec fn regex_accepts(pattern: Seq<char>) -> bool;

/// What `fancy_regex::Regex::is_match` answers for `text` on the regex compiled from `pattern`:
/// `Some(found)`, or `None` when the search itself failed.
pub uninterp spec fn regex_search(pattern: Seq<char>, text: Seq<char>) -> Option<bool>;

/// What `fancy_regex::Regex::try_replacen` with no limit gives for `text` and `replacement` on the
/// regex compiled from `pattern` (with `$name` expanded to the groups it names): the new text,
/// or `None` when a search failed.
pub uninterp spec fn regex_replaced(pattern: Seq<char>, text: Seq<char>, replacement: Seq<char>) -> Option<Seq<char>>;

/// A regular expression together with the pattern it was compiled from.
#[derive(Debug)]
pub struct CompiledPattern {
    pattern: String,
    regex: fancy_regex::Regex,
}

impl View for CompiledPattern {
    type V = Seq<char>;

    /// The pattern that the expression was compiled from.
    closed spec fn view(&self) -> Seq<char> {
        self.pattern@
    }
}

/// `fancy_regex::Regex::new`: compiles `pattern`, or gives the compiler's error as its `Display`
/// and `Debug` texts.
#[verifier::external_body]
fn compile_regex(pattern: &str) -> (r: Result<CompiledPattern, (String, String)>)
    ensures
        r is Ok <==> regex_accepts(pattern@),
        r matches Ok(c) ==> c@ == pattern@,
{
    match fancy_regex::Regex::new(pattern) {
        Ok(regex) => Ok(CompiledPattern { pattern: pattern.to_string(), regex }),
        Err(e) => Err((e.to_string(), format!("{e:?}"))),
    }
}

/// `fancy_regex::Regex::is_match`: whether the expression matches anywhere in `text`, or the
/// error's `Display` and `Debug` texts when the search failed (it gave up on backtracking).
#[verifier::external_body]
fn regex_is_match(c: &CompiledPattern, text: &str) -> (r: Result<bool, (String, String)>)
    ensures
        r is Ok <==> regex_search(c@, text@) is Some,
        r matches Ok(found) ==> regex_search(c@, text@) == Some(found),
{
    match c.regex.is_match(text) {
        Ok(found) => Ok(found),
        Err(e) => Err((e.to_string(), format!("{e:?}"))),
    }
}

/// `fancy_regex::Regex::try_replacen` with no limit: every non-overlapping match in `text`
/// replaced by `replacement`, or the error's `Display` and `Debug` texts when a search failed.
#[verifier::external_body]
fn regex_replace_all(c: &CompiledPattern, text: &str, replacement: &str) -> (r: Result<String, (String, String)>)
    ensures
        r is Ok <==> regex_replaced(c@, text@, replacement@) is Some,
        r matches Ok(t) ==> regex_replaced(c@, text@, replacement@) == Some(t@),
{
    match c.regex.try_replacen(text, 0, replacement) {
        Ok(t) => Ok(t.into_owned()),
        Err(e) => Err((e.to_string(), format!("{e:?}"))),
    }
}

/// A character that `fancy_regex::escape` writes with a backslash before it.
pub open spec fn regex_special(c: char) -> bool {
    c == '\\' || c == '.' || c == '+' || c == '*' || c == '?' || c == '(' || c == ')' || c == '|'
        || c == '[' || c == ']' || c == '{' || c == '}' || c == '^' || c == '$' || c == '#'
}

/// How one character is written once quoted: newline, tab and carriage return as `\n`, `\t`
/// and `\r`, a special character after a backslash, any other as it is.
pub open spec fn quoted_char(c: char) -> Seq<char> {
    if c == '\n' {
        seq!['\\', 'n']
    } else if c == '\t' {
        seq!['\\', 't']
    } else if c == '\r' {
        seq!['\\', 'r']
    } else if regex_special(c) {
        seq!['\\', c]
    } else {
        seq![c]
    }
}

/// Every character of `s` quoted.
pub open spec fn quoted(s: Seq<char>) -> Seq<char>
    decreases s.len(),
{
    if s.len() == 0 {
        seq![]
    } else {
        quoted(s.drop_last()) + quoted_char(s.last())
    }
}

/// What `fancy_regex::escape` gives: the text itself when none of its characters is special,
/// and otherwise every character quoted.
pub open spec fn regex_escape_of(s: Seq<char>) -> Seq<char> {
    if exists|i: int| 0 <= i < s.len() && regex_special(#[trigger] s[i]) {
        quoted(s)
    } else {
        s
    }
}

/// `fancy_regex::escape`: the text as an expression that matches exactly that text.
#[verifier::external_body]
pub(crate) fn escape_regex(text: &str) -> (r: String)
    ensures
        r@ == regex_escape_of(text@),
{
    fancy_regex::escape(text).into_owned()
}

/// What `fancy_regex::Regex::captures` finds in `text` with the regex compiled from `pattern`:
/// `None` when the search failed, `Some(None)` when nothing matched, and otherwise the groups
/// of the first match by number, each `None` when it took no part in the match.
pub uninterp spec fn regex_first_captures(pattern: Seq<char>, text: Seq<char>) -> Option<Option<Seq<Option<Seq<char>>>>>;

/// The text of optional strings.
pub open spec fn opt_views(v: Seq<Option<String>>) -> Seq<Option<Seq<char>>> {
    v.map_values(|o: Option<String>| match o {
        Some(s) => Some(s@),
        None => None,
    })
}

/// `fancy_regex::Regex::captures`, with the groups of the first match taken by number as
/// strings; the error's `Display` and `Debug` texts when the search failed.
#[verifier::external_body]
fn regex_captures(c: &CompiledPattern, text: &str) -> (r: Result<Option<Vec<Option<String>>>, (String, String)>)
    ensures
        r is Err <==> regex_first_captures(c@, text@) is None,
        r matches Ok(None) ==> regex_first_captures(c@, text@) == Some(None::<Seq<Option<Seq<char>>>>),
        r matches Ok(Some(v)) ==> regex_first_captures(c@, text@) == Some(Some(opt_views(v@))),
{
    match c.regex.captures(text) {
        Ok(Some(caps)) => Ok(Some(caps.iter().map(|m| m.map(|m| m.as_str().to_string())).collect())),
        Ok(None) => Ok(None),
        Err(e) => Err((e.to_string(), format!("{e:?}"))),
    }
}

impl CompiledPattern {
    /// The pattern that the expression was compiled from.
    pub fn as_str(&self) -> (r: &str)
        ensures
            r@ == self@,
    {
        self.pattern.as_str()
    }

    /// `text` with every non-overlapping match replaced by `replacement`; a search that failed
    /// is a [`GitError::RegexError`].
    pub fn replace_all(&self, text: &str, replacement: &str) -> (r: Result<String, GitError>)
        ensures
            r is Ok <==> regex_replaced(self@, text@, replacement@) is Some,
            r matches Ok(t) ==> regex_replaced(self@, text@, replacement@) == Some(t@),
            r matches Err(e) ==> e is RegexError,
    {
        match regex_replace_all(self, text, replacement) {
            Ok(t) => Ok(t),
            Err((message, debug)) => Err(GitError::RegexError(OutsideFailure { message, debug, broken_pipe: false })),
        }
    }

    /// The groups of the first match in `text`, by number, or `None` when nothing matches; a
    /// search that failed is a [`GitError::RegexError`].
    pub fn captures(&self, text: &str) -> (r: Result<Option<Vec<Option<String>>>, GitError>)
        ensures
            r is Ok <==> regex_first_captures(self@, text@) is Some,
            r matches Ok(None) ==> regex_first_captures(self@, text@) == Some(None::<Seq<Option<Seq<char>>>>),
            r matches Ok(Some(v)) ==> regex_first_captures(self@, text@) == Some(Some(opt_views(v@))),
            r matches Err(e) ==> e is RegexError,
    {
        match regex_captures(self, text) {
            Ok(found) => Ok(found),
            Err((message, debug)) => Err(GitError::RegexError(OutsideFailure { message, debug, broken_pipe: false })),
        }
    }

    /// Whether the expression matches anywhere in `text`; a search that failed is a
    /// [`GitError::RegexError`].
    pub fn is_match(&self, text: &str) -> (r: Result<bool, GitError>)
        ensures
            r is Ok <==> regex_search(self@, text@) is Some,
            r matches Ok(found) ==> regex_search(self@, text@) == Some(found),
            r matches Err(e) ==> e is RegexError,
    {
        match regex_is_match(self, text) {
            Ok(found) => Ok(found),
            Err((message, debug)) => Err(GitError::RegexError(OutsideFailure { message, debug, broken_pipe: false })),
        }
    }
}

/// Compiles a regex pattern. A pattern that does not compile is a [`GitError::RegexError`]
/// carrying the compiler's message.
pub fn get_or_compile(pattern: &str) -> (r: Result<CompiledPattern, GitError>)
    ensures
        r is Ok <==> regex_accepts(pattern@),
        r matches Ok(c) ==> c@ == pattern@,
        r matches Err(e) ==> e is RegexError,
{
    match compile_regex(pattern) {
        Ok(c) => Ok(c),
        Err((message, debug)) => Err(GitError::RegexError(OutsideFailure { message, debug, broken_pipe: false })),
    }
}

/// The items of `items` in which the pattern finds a match, in their order.
pub open spec fn matching(items: Seq<String>, pattern: Seq<char>) -> Seq<Seq<char>>
    decreases items.len(),
{
    if items.len() == 0 {
        seq![]
    } else {
        let rest = matching(items.drop_last(), pattern);
        if regex_search(pattern, items.last()@) == Some(true) {
            rest.push(items.last()@)
        } else {
            rest
        }
    }
}

/// The views of a sequence of strings.
pub open spec fn views(items: Seq<String>) -> Seq<Seq<char>> {
    items.map_values(|s: String| s@)
}

/// What filtering `items` with `pattern` gives: all items for an empty pattern, and otherwise
/// the items in which the compiled pattern finds a match.
pub open spec fn filter_result(items: Seq<String>, pattern: Seq<char>) -> Option<Seq<Seq<char>>> {
    if pattern.len() == 0 {
        Some(views(items))
    } else if !regex_accepts(pattern) {
        None
    } else {
        Some(matching(items, pattern))
    }
}

/// Filter a collection of names with a regex. An empty regex keeps every name; a regex that
/// does not compile is a [`GitError::RegexError`]; otherwise the names in which the regex finds
/// a match are kept, in their order, and a name on which the search fails is dropped.
pub fn filter_ref(collection: &[String], regex: &str) -> (r: Result<Vec<String>, GitError>)
    ensures
        r is Ok <==> filter_result(collection@, regex@) is Some,
        r matches Ok(v) ==> Some(views(v@)) == filter_result(collection@, regex@),
        r matches Err(e) ==> e is RegexError,
{
    let n = collection.len();
    if regex.unicode_len() == 0 {
        let mut out: Vec<String> = Vec::new();
        let mut i: usize = 0;
        while i < n
            invariant
                n == collection@.len(),
                i <= n,
                views(out@) == views(collection@.subrange(0, i as int)),
            decreases n - i,
        {
            out.push(owned(collection[i].as_str()));
            assert(views(collection@.subrange(0, i + 1)) =~= views(
                collection@.subrange(0, i as int),
            ).push(collection@[i as int]@));
            assert(views(out@) =~= views(collection@.subrange(0, i as int)).push(
                collection@[i as int]@,
            ));
            i += 1;
        }
        assert(collection@.subrange(0, n as int) =~= collection@);
        return Ok(out);
    }
    let filter = get_or_compile(regex)?;
    let mut out: Vec<String> = Vec::new();
    let mut i: usize = 0;
    while i < n
        invariant
            n == collection@.len(),
            i <= n,
            filter@ == regex@,
            views(out@) == matching(collection@.subrange(0, i as int), regex@),
        decreases n - i,
    {
        let item = collection[i].as_str();
        let found = filter.is_match(item);
        let ghost prefix = collection@.subrange(0, i + 1);
        assert(prefix.drop_last() =~= collection@.subrange(0, i as int));
        assert(prefix.last() == collection@[i as int]);
        match found {
            Ok(true) => {
                out.push(owned(item));
                assert(views(out@) =~= matching(collection@.subrange(0, i as int), regex@).push(
                    item@,
                ));
            },
            _ => {},
        }
        i += 1;
    }
    assert(collection@.subrange(0, n as int) =~= collection@);
    Ok(out)
}

} // verus!
