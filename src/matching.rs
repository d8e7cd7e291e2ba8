//! Pattern matching through the `regex` crate: literal escaping, and the
//! case-insensitive search, equality and `LIKE` matchers built on it.
use vstd::prelude::*;
use crate::like::{like_pattern_to_regex_pattern, like_regex};
use crate::strings::push_text;
use vstd::utf8::encode_utf8;

verus! {

#[verifier::external_type_specification]
#[verifier::external_body]
pub struct ExRegex(regex::Regex);

/// The characters that have a meaning of their own in a regular expression.
pub open spec fn is_meta_char(c: char) -> bool {
    c == '\\' || c == '.' || c == '+' || c == '*' || c == '?' || c == '(' || c == ')'
        || c == '|' || c == '[' || c == ']' || c == '{' || c == '}' || c == '^' || c == '$'
        || c == '#' || c == '&' || c == '-' || c == '~'
}

/// A text with a backslash put before each meta character.
pub open spec fn escaped(s: Seq<char>) -> Seq<char>
    decreases s.len(),
{
    if s.len() == 0 {
        Seq::empty()
    } else {
        let c = s.last();
        escaped(s.drop_last()) + if is_meta_char(c) {
            seq!['\\', c]
        } else {
            seq![c]
        }
    }
}

/// Whether the regular expression `pattern` (compiled case-insensitively
/// when `insensitive` holds) matches somewhere in `text`.
pub uninterp spec fn regex_matches(pattern: Seq<char>, insensitive: bool, text: Seq<char>) -> bool;

/// The byte offset of the leftmost-first match of `pattern` in `text` that
/// starts at or after byte `start`, if any.
pub uninterp spec fn regex_find_from(pattern: Seq<char>, insensitive: bool, text: Seq<char>, start: int) -> Option<int>;

/// `text` with every match of `pattern` replaced by `rep`, taken literally.
pub uninterp spec fn regex_replaced_all(pattern: Seq<char>, insensitive: bool, text: Seq<char>, rep: Seq<char>) -> Seq<char>;

/// Whether `p` is the escaped text `t`, that text anchored at both ends,
/// or the `LIKE` pattern `t`.
pub open spec fn short_text_pattern(t: Seq<char>, p: Seq<char>) -> bool {
    p == escaped(t) || p == seq!['^'] + escaped(t) + seq!['$'] || p == like_regex(escaped(t))
}

/// Whether `pattern` compiles (case-insensitively when `insensitive`
/// holds) within the default size limits.
pub uninterp spec fn regex_compiles(pattern: Seq<char>, insensitive: bool) -> bool;

/// A character that stands for itself in a regular expression and needs no
/// escape.
pub open spec fn is_plain_char(c: char) -> bool {
    ('0' <= c <= '9') || ('a' <= c <= 'z') || ('A' <= c <= 'Z') || c == '%' || c == '_' || c == ':'
}

/// A short pattern made only of characters that stand for themselves.
pub open spec fn is_plain_literal(p: Seq<char>) -> bool {
    0 < p.len() <= 64 && forall|i: int| 0 <= i < p.len() ==> is_plain_char(#[trigger] p[i])
}

/// Whether `p` stands in `t` at `i`.
pub open spec fn occurs_at(t: Seq<char>, p: Seq<char>, i: int) -> bool {
    0 <= i && i + p.len() <= t.len() && t.subrange(i, i + p.len()) == p
}

/// The first position at or after `i` where `p` stands in `t`.
pub open spec fn first_occurrence(t: Seq<char>, p: Seq<char>, i: int) -> Option<int>
    decreases t.len() + 1 - i,
{
    if i < 0 || i + p.len() > t.len() {
        None
    } else if occurs_at(t, p, i) {
        Some(i)
    } else {
        first_occurrence(t, p, i + 1)
    }
}

/// The pattern of the texts that read as true: `true` in any case, or `1`,
/// with white space around.
pub open spec fn true_pattern() -> Seq<char> {
    "^\\s*(true|1)\\s*$"@
}

/// `t` with every occurrence of `p`, from left to right and not
/// overlapping, replaced by `r`.
pub open spec fn replace_all_literal(t: Seq<char>, p: Seq<char>, r: Seq<char>) -> Seq<char>
    decreases t.len(),
{
    if p.len() == 0 {
        t
    } else {
        match first_occurrence(t, p, 0) {
            Some(i) => if 0 <= i && i + p.len() <= t.len() {
                t.subrange(0, i) + r + replace_all_literal(t.subrange(i + p.len(), t.len() as int), p, r)
            } else {
                t
            },
            None => t,
        }
    }
}

/// A compiled regular expression, with the pattern it was compiled from.
pub struct Matcher {
    re: regex::Regex,
    pattern: Ghost<Seq<char>>,
    insensitive: Ghost<bool>,
}

impl Matcher {
    /// The pattern the matcher was compiled from.
    pub closed spec fn source(&self) -> Seq<char> {
        self.pattern@
    }

    /// Whether the matcher ignores case.
    pub closed spec fn ignores_case(&self) -> bool {
        self.insensitive@
    }
}

/// Relies on `regex::escape`: each meta character gets a backslash before it.
#[verifier::external_body]
pub(crate) fn escape_regex(s: &str) -> (r: String)
    ensures
        r@ == escaped(s@),
{
    regex::escape(s)
}

/// Relies on `regex::RegexBuilder::build`, with case-insensitivity set as
/// asked: on success the matcher is compiled from `pattern`. A short
/// pattern of plain characters is a literal and compiles, and so do the
/// pattern of true texts and the escaped, anchored or `LIKE` patterns of a
/// text of at most 64 characters: all are valid and far below the default
/// size limit.
#[verifier::external_body]
pub(crate) fn build_matcher(pattern: &str, insensitive: bool) -> (r: Result<Matcher, String>)
    ensures
        r is Ok <==> regex_compiles(pattern@, insensitive),
        is_plain_literal(pattern@) ==> r is Ok,
        pattern@ == true_pattern() ==> r is Ok,
        (exists|t: Seq<char>| t.len() <= 64 && #[trigger] short_text_pattern(t, pattern@)) ==> r is Ok,
        r matches Ok(m) ==> m.source() == pattern@ && m.ignores_case() == insensitive,
{
    match regex::RegexBuilder::new(pattern).case_insensitive(insensitive).build() {
        Ok(re) => Ok(Matcher { re, pattern: Ghost(pattern@), insensitive: Ghost(insensitive) }),
        Err(e) => Err(format!("{}", e)),
    }
}

/// Relies on `regex::Regex::is_match`.
#[verifier::external_body]
pub(crate) fn matcher_is_match(m: &Matcher, text: &str) -> (r: bool)
    ensures
        r == regex_matches(m.source(), m.ignores_case(), text@),
{
    m.re.is_match(text)
}

/// Relies on `regex::Regex::find_at`, which needs `start` within the
/// text's bytes: a match found starts at or after `start` and within the text.
#[verifier::external_body]
pub(crate) fn matcher_find_at(m: &Matcher, text: &str, start: usize) -> (r: Option<usize>)
    requires
        start <= encode_utf8(text@).len(),
    ensures
        match regex_find_from(m.source(), m.ignores_case(), text@, start as int) {
            Some(i) => start <= i <= encode_utf8(text@).len() && r == Some(i as usize),
            None => r is None,
        },
{
    m.re.find_at(text, start).map(|x| x.start())
}

/// Relies on `regex::Regex::replace_all` with a replacement taken
/// literally. A case-sensitive pattern of plain characters matches exactly
/// its own text, so its matches are its occurrences from left to right.
#[verifier::external_body]
pub(crate) fn matcher_replace_all(m: &Matcher, text: &str, rep: &str) -> (r: String)
    ensures
        r@ == regex_replaced_all(m.source(), m.ignores_case(), text@, rep@),
        !m.ignores_case() && is_plain_literal(m.source()) ==> r@ == replace_all_literal(text@, m.source(), rep@),
{
    m.re.replace_all(text, regex::NoExpand(rep)).into_owned()
}

/// The search pattern for a literal text.
pub open spec fn search_pattern(s: Seq<char>) -> Seq<char> {
    escaped(s)
}

/// The whole-text equality pattern for a literal text.
pub open spec fn equals_pattern(s: Seq<char>) -> Seq<char> {
    seq!['^'] + escaped(s) + seq!['$']
}

/// The pattern that a `LIKE` pattern stands for.
pub open spec fn like_search_pattern(s: Seq<char>) -> Seq<char> {
    like_regex(escaped(s))
}

/// A case-insensitive matcher for the literal text `search`.
pub fn make_case_insensitive_search_regex(search: &str) -> (r: Result<Matcher, String>)
    ensures
        r is Ok <==> regex_compiles(search_pattern(search@), true),
        search@.len() <= 64 ==> r is Ok,
        r matches Ok(m) ==> m.source() == search_pattern(search@) && m.ignores_case(),
{
    let p = escape_regex(search);
    assert(short_text_pattern(search@, p@));
    build_matcher(p.as_str(), true)
}

/// A case-insensitive matcher for texts equal to `search`.
pub fn make_case_insensitive_equals_regex(search: &str) -> (r: Result<Matcher, String>)
    ensures
        r is Ok <==> regex_compiles(equals_pattern(search@), true),
        search@.len() <= 64 ==> r is Ok,
        r matches Ok(m) ==> m.source() == equals_pattern(search@) && m.ignores_case(),
{
    let p = escape_regex(search);
    let mut full = String::new();
    push_text(&mut full, "^");
    push_text(&mut full, p.as_str());
    push_text(&mut full, "$");
    proof {
        reveal_strlit("^");
        reveal_strlit("$");
    }
    assert(full@ =~= equals_pattern(search@));
    assert(short_text_pattern(search@, full@));
    build_matcher(full.as_str(), true)
}

/// A case-insensitive matcher for the `LIKE` pattern `search`; its other
/// characters match themselves.
pub fn make_case_insensitive_like_regex(search: &str) -> (r: Result<Matcher, String>)
    ensures
        r is Ok <==> regex_compiles(like_search_pattern(search@), true),
        search@.len() <= 64 ==> r is Ok,
        r matches Ok(m) ==> m.source() == like_search_pattern(search@) && m.ignores_case(),
{
    let p = escape_regex(search);
    let full = like_pattern_to_regex_pattern(p.as_str());
    assert(short_text_pattern(search@, full@));
    build_matcher(full.as_str(), true)
}

/// The clamped start of a search: `start` bytes, or the text's length when
/// that is less.
pub open spec fn clamped_start(start: usize, text: Seq<char>) -> int {
    if start as int > encode_utf8(text).len() {
        encode_utf8(text).len() as int
    } else {
        start as int
    }
}

/// The byte offset of the first case-insensitive occurrence of the literal
/// `needle` in `haystack` at or after byte `start` (clamped to the text).
pub fn find_position(needle: &str, haystack: &str, start: usize) -> (r: Result<Option<usize>, String>)
    ensures
        r is Ok <==> regex_compiles(search_pattern(needle@), true),
        needle@.len() <= 64 ==> r is Ok,
        r matches Ok(found) ==> match regex_find_from(search_pattern(needle@), true, haystack@, clamped_start(start, haystack@)) {
            Some(i) => 0 <= i <= encode_utf8(haystack@).len() && found == Some(i as usize),
            None => found is None,
        },
{
    let m = make_case_insensitive_search_regex(needle)?;
    let len = haystack.as_bytes().len();
    let s = if start > len { len } else { start };
    Ok(matcher_find_at(&m, haystack, s))
}

} // verus!
