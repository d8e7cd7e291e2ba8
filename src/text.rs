//! Text kernels of the string functions: slicing by characters, words and
//! sentences, case-insensitive affixes, trimming and case mapping.
use vstd::prelude::*;
use crate::strings::{chars_of, push_char, push_text, string_of};

verus! {

/// What `str::to_lowercase` returns.
pub uninterp spec fn lower_of(s: Seq<char>) -> Seq<char>;

/// What `str::to_uppercase` returns.
pub uninterp spec fn upper_of(s: Seq<char>) -> Seq<char>;

/// What `char::is_whitespace` says (Unicode `White_Space`).
pub uninterp spec fn is_white(c: char) -> bool;

/// The characters of `char::to_lowercase`.
pub uninterp spec fn char_lower(c: char) -> Seq<char>;

/// The characters of `char::to_uppercase`.
pub uninterp spec fn char_upper(c: char) -> Seq<char>;

/// The pieces of `str::split` on a separator.
pub uninterp spec fn split_pieces(s: Seq<char>, sep: Seq<char>) -> Seq<Seq<char>>;

/// Relies on `str::to_lowercase`.
#[verifier::external_body]
pub(crate) fn lowercase(s: &str) -> (r: String)
    ensures
        r@ == lower_of(s@),
{
    s.to_lowercase()
}

/// Relies on `str::to_uppercase`.
#[verifier::external_body]
pub(crate) fn uppercase(s: &str) -> (r: String)
    ensures
        r@ == upper_of(s@),
{
    s.to_uppercase()
}

/// Relies on `char::is_whitespace`.
#[verifier::external_body]
pub(crate) fn is_whitespace(c: char) -> (r: bool)
    ensures
        r == is_white(c),
{
    c.is_whitespace()
}

/// Relies on `char::to_lowercase`, collected into a string.
#[verifier::external_body]
pub(crate) fn char_lowercase(c: char) -> (r: String)
    ensures
        r@ == char_lower(c),
{
    c.to_lowercase().collect()
}

/// Relies on `char::to_uppercase`, collected into a string.
#[verifier::external_body]
pub(crate) fn char_uppercase(c: char) -> (r: String)
    ensures
        r@ == char_upper(c),
{
    c.to_uppercase().collect()
}

/// Relies on `str::split` with a text separator; each piece is copied out.
#[verifier::external_body]
pub(crate) fn split_text(s: &str, sep: &str) -> (r: Vec<String>)
    ensures
        r@.len() == split_pieces(s@, sep@).len(),
        forall|i: int| 0 <= i < r@.len() ==> (#[trigger] r@[i])@ == split_pieces(s@, sep@)[i],
{
    s.split(sep).map(|p| p.to_string()).collect()
}

/// `s` without its leading white space.
pub open spec fn trim_start(s: Seq<char>) -> Seq<char>
    decreases s.len(),
{
    if s.len() > 0 && is_white(s[0]) {
        trim_start(s.drop_first())
    } else {
        s
    }
}

/// `s` without its trailing white space.
pub open spec fn trim_end(s: Seq<char>) -> Seq<char>
    decreases s.len(),
{
    if s.len() > 0 && is_white(s.last()) {
        trim_end(s.drop_last())
    } else {
        s
    }
}

/// `s` without leading and trailing white space.
pub open spec fn trimmed(s: Seq<char>) -> Seq<char> {
    trim_end(trim_start(s))
}

/// Relies on `str::trim`, which removes leading and trailing characters
/// that `char::is_whitespace` accepts.
#[verifier::external_body]
pub(crate) fn trim(s: &str) -> (r: String)
    ensures
        r@ == trimmed(s@),
{
    s.trim().to_string()
}

proof fn lemma_trim_end_keeps_start(s: Seq<char>)
    requires
        s.len() == 0 || !is_white(s[0]),
    ensures
        trim_end(s).len() == 0 || !is_white(trim_end(s)[0]),
        trim_end(s).len() == 0 || !is_white(trim_end(s).last()),
    decreases s.len(),
{
    if s.len() > 0 && is_white(s.last()) {
        if s.len() > 1 {
            assert(s.drop_last()[0] == s[0]);
        }
        lemma_trim_end_keeps_start(s.drop_last());
    }
}

proof fn lemma_trim_start_start(s: Seq<char>)
    ensures
        trim_start(s).len() == 0 || !is_white(trim_start(s)[0]),
    decreases s.len(),
{
    if s.len() > 0 && is_white(s[0]) {
        lemma_trim_start_start(s.drop_first());
    }
}

/// Trimming twice is trimming once.
pub proof fn lemma_trim_idempotent(s: Seq<char>)
    ensures
        trimmed(trimmed(s)) == trimmed(s),
{
    let t = trimmed(s);
    lemma_trim_start_start(s);
    lemma_trim_end_keeps_start(trim_start(s));
    assert(trim_start(t) == t);
    assert(trim_end(t) == t);
}

pub open spec fn clamp_count(k: int, len: int) -> int {
    if k < 0 {
        0
    } else if k > len {
        len
    } else {
        k
    }
}

/// The text between two character positions.
fn substring(s: &str, from: usize, to: usize) -> (r: String)
    requires
        from <= to <= s@.len(),
    ensures
        r@ == s@.subrange(from as int, to as int),
{
    let mut r = String::new();
    let mut i: usize = from;
    while i < to
        invariant
            from <= i <= to,
            to <= s@.len(),
            r@ == s@.subrange(from as int, i as int),
        decreases to - i,
    {
        push_char(&mut r, s.get_char(i));
        assert(r@ =~= s@.subrange(from as int, i + 1));
        i = i + 1;
    }
    r
}

/// The first `k` characters (none when `k` is negative, all when it is
/// larger than the text).
pub fn left(s: &str, k: i64) -> (r: String)
    ensures
        r@ == s@.subrange(0, clamp_count(k as int, s@.len() as int)),
{
    let n = s.unicode_len();
    let c: usize = if k < 0 { 0 } else if k as u64 > n as u64 { n } else { k as usize };
    substring(s, 0, c)
}

/// The last `k` characters (none when `k` is negative, all when it is
/// larger than the text).
pub fn right(s: &str, k: i64) -> (r: String)
    ensures
        r@ == s@.subrange(s@.len() - clamp_count(k as int, s@.len() as int), s@.len() as int),
{
    let n = s.unicode_len();
    let c: usize = if k < 0 { 0 } else if k as u64 > n as u64 { n } else { k as usize };
    substring(s, n - c, n)
}

/// The 0-based position where `Mid` starts: `start` (1-based) clamped to
/// the text's characters.
pub open spec fn mid_start(start: int, len: int) -> int {
    if len == 0 {
        0
    } else if start < 1 {
        0
    } else if start > len {
        len - 1
    } else {
        start - 1
    }
}

/// Up to `k` characters from the 1-based position `start`, which is clamped
/// to the text; a negative `k` counts as zero.
pub fn mid(s: &str, start: i64, k: i64) -> (r: String)
    ensures
        ({
            let p = mid_start(start as int, s@.len() as int);
            let e = p + clamp_count(k as int, s@.len() - p);
            r@ == s@.subrange(p, e)
        }),
{
    let n = s.unicode_len();
    let p: usize = if n == 0 {
        0
    } else if start < 1 {
        0
    } else if start as u64 > n as u64 {
        n - 1
    } else {
        (start - 1) as usize
    };
    let room = n - p;
    let c: usize = if k < 0 { 0 } else if k as u64 > room as u64 { room } else { k as usize };
    substring(s, p, p + c)
}

pub open spec fn is_word_end(c: char) -> bool {
    c == ' ' || c == '\t' || c == '\r' || c == '\n' || c == '.' || c == ',' || c == '!' || c == '?'
        || c == '¿'
}

pub open spec fn is_sentence_end(c: char) -> bool {
    c == '.' || c == '!' || c == '?'
}

/// The prefix of `s` before the first character that `stop` accepts; all of
/// `s` when there is none.
pub open spec fn prefix_before(s: Seq<char>, stop: spec_fn(char) -> bool) -> Seq<char>
    decreases s.len(),
{
    if s.len() == 0 {
        s
    } else if stop(s[0]) {
        Seq::empty()
    } else {
        seq![s[0]] + prefix_before(s.drop_first(), stop)
    }
}

proof fn lemma_prefix_before_step(s: Seq<char>, i: int, stop: spec_fn(char) -> bool)
    requires
        0 <= i <= s.len(),
        forall|j: int| 0 <= j < i ==> !stop(#[trigger] s[j]),
    ensures
        prefix_before(s, stop) == s.subrange(0, i) + prefix_before(s.subrange(i, s.len() as int), stop),
    decreases i,
{
    if i > 0 {
        lemma_prefix_before_step(s.drop_first(), i - 1, stop);
        assert(s.drop_first().subrange(i - 1, s.drop_first().len() as int) =~= s.subrange(i, s.len() as int));
        assert(seq![s[0]] + s.drop_first().subrange(0, i - 1) =~= s.subrange(0, i));
    } else {
        assert(s.subrange(0, 0) + s.subrange(0, s.len() as int) =~= s);
    }
}

fn prefix_until(s: &str, sentence: bool) -> (r: String)
    ensures
        sentence ==> r@ == prefix_before(s@, |c: char| is_sentence_end(c)),
        !sentence ==> r@ == prefix_before(s@, |c: char| is_word_end(c)),
{
    let ghost stop = if sentence {
        |c: char| is_sentence_end(c)
    } else {
        |c: char| is_word_end(c)
    };
    let n = s.unicode_len();
    let mut i: usize = 0;
    while i < n
        invariant
            n == s@.len(),
            i <= n,
            forall|j: int| 0 <= j < i ==> !stop(#[trigger] s@[j]),
            stop == (if sentence { |c: char| is_sentence_end(c) } else { |c: char| is_word_end(c) }),
        decreases n - i,
    {
        let c = s.get_char(i);
        let hit = if sentence {
            c == '.' || c == '!' || c == '?'
        } else {
            c == ' ' || c == '\t' || c == '\r' || c == '\n' || c == '.' || c == ',' || c == '!' || c == '?' || c == '¿'
        };
        if hit {
            proof {
                lemma_prefix_before_step(s@, i as int, stop);
                assert(stop(s@[i as int]));
                assert(prefix_before(s@.subrange(i as int, n as int), stop) =~= Seq::empty());
            }
            let r = substring(s, 0, i);
            assert(r@ =~= s@.subrange(0, i as int) + Seq::empty());
            return r;
        }
        i = i + 1;
    }
    proof {
        lemma_prefix_before_step(s@, n as int, stop);
        assert(s@.subrange(0, n as int) =~= s@);
    }
    let r = substring(s, 0, n);
    assert(r@ =~= s@.subrange(0, n as int) + s@.subrange(n as int, n as int));
    r
}

/// The text up to its first white space or punctuation (`.` `,` `!` `?` `¿`).
pub fn first_word(s: &str) -> (r: String)
    ensures
        r@ == prefix_before(s@, |c: char| is_word_end(c)),
{
    prefix_until(s, false)
}

/// The text up to its first `.`, `!` or `?`.
pub fn first_sentence(s: &str) -> (r: String)
    ensures
        r@ == prefix_before(s@, |c: char| is_sentence_end(c)),
{
    prefix_until(s, true)
}

/// Whether `search` is a prefix of `text`, comparing the lower case of each
/// character.
pub open spec fn starts_with_ci(text: Seq<char>, search: Seq<char>) -> bool {
    search.len() <= text.len() && forall|i: int| 0 <= i < search.len() ==> char_lower(#[trigger] search[i]) == char_lower(text[i])
}

/// Whether `search` is a suffix of `text`, comparing the lower case of each
/// character.
pub open spec fn ends_with_ci(text: Seq<char>, search: Seq<char>) -> bool {
    search.len() <= text.len() && forall|i: int| 0 <= i < search.len() ==> char_lower(#[trigger] search[i]) == char_lower(text[text.len() - search.len() + i])
}

fn same_lower(a: char, b: char) -> (r: bool)
    ensures
        r == (char_lower(a) == char_lower(b)),
{
    let x = char_lowercase(a);
    let y = char_lowercase(b);
    x == y
}

/// Case-insensitive prefix test, character by character.
pub fn text_starts_with(text: &str, search: &str) -> (r: bool)
    ensures
        r == starts_with_ci(text@, search@),
{
    let n = search.unicode_len();
    if n > text.unicode_len() {
        return false;
    }
    let mut i: usize = 0;
    while i < n
        invariant
            n == search@.len(),
            n <= text@.len(),
            i <= n,
            forall|j: int| 0 <= j < i ==> char_lower(#[trigger] search@[j]) == char_lower(text@[j]),
        decreases n - i,
    {
        if !same_lower(search.get_char(i), text.get_char(i)) {
            return false;
        }
        i = i + 1;
    }
    true
}

/// Case-insensitive suffix test, character by character.
pub fn text_ends_with(text: &str, search: &str) -> (r: bool)
    ensures
        r == ends_with_ci(text@, search@),
{
    let n = search.unicode_len();
    let t = text.unicode_len();
    if n > t {
        return false;
    }
    let mut i: usize = 0;
    while i < n
        invariant
            n == search@.len(),
            t == text@.len(),
            n <= t,
            i <= n,
            forall|j: int| 0 <= j < i ==> char_lower(#[trigger] search@[j]) == char_lower(text@[t - n + j]),
        decreases n - i,
    {
        if !same_lower(search.get_char(i), text.get_char(t - n + i)) {
            return false;
        }
        i = i + 1;
    }
    true
}

/// Whether position `i` of `s` starts a word: it is the first character or
/// follows white space.
pub open spec fn starts_word(s: Seq<char>, i: int) -> bool {
    i == 0 || is_white(s[i - 1])
}

/// Each character that starts a word in upper case (as `char::to_uppercase`
/// gives it), the others as they are.
pub open spec fn capitalized(s: Seq<char>) -> Seq<char>
    decreases s.len(),
{
    if s.len() == 0 {
        s
    } else {
        let i = s.len() - 1;
        capitalized(s.drop_last()) + if starts_word(s, i) {
            char_upper(s[i])
        } else {
            seq![s[i]]
        }
    }
}

/// Capitalizes the first letter of each word; words are separated by white
/// space and the other letters are left as they are.
pub fn capitalize(s: &str) -> (r: String)
    ensures
        r@ == capitalized(s@),
{
    let cs = chars_of(s);
    let mut r = String::new();
    let mut i: usize = 0;
    while i < cs.len()
        invariant
            cs@ == s@,
            i <= cs@.len(),
            r@ == capitalized(s@.subrange(0, i as int)),
        decreases cs@.len() - i,
    {
        let c = cs[i];
        let start = i == 0 || is_whitespace(cs[i - 1]);
        proof {
            let p = s@.subrange(0, i + 1);
            assert(p.drop_last() =~= s@.subrange(0, i as int));
            assert(p[i as int] == c);
            if i > 0 {
                assert(p[i - 1] == cs@[i - 1]);
            }
        }
        if start {
            let u = char_uppercase(c);
            push_text(&mut r, u.as_str());
        } else {
            push_char(&mut r, c);
        }
        i = i + 1;
    }
    assert(s@.subrange(0, cs@.len() as int) =~= s@);
    r
}

/// `s` with every `c` turned into a decimal point.
pub open spec fn with_point(s: Seq<char>, c: char) -> Seq<char> {
    s.map_values(|x: char| if x == c { '.' } else { x })
}

/// Replaces each occurrence of the decimal separator `c` by `.`.
pub fn replace_with_point(s: &str, c: char) -> (r: String)
    ensures
        r@ == with_point(s@, c),
{
    let cs = chars_of(s);
    let mut out: Vec<char> = Vec::new();
    let mut i: usize = 0;
    while i < cs.len()
        invariant
            cs@ == s@,
            i <= cs@.len(),
            out@ == with_point(s@.subrange(0, i as int), c),
        decreases cs@.len() - i,
    {
        let x = cs[i];
        out.push(if x == c { '.' } else { x });
        assert(out@ =~= with_point(s@.subrange(0, i + 1), c));
        i = i + 1;
    }
    assert(s@.subrange(0, cs@.len() as int) =~= s@);
    string_of(&out)
}

} // verus!
