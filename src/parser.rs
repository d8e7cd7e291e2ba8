//! The expression grammar.
//!
//! ```text
//! expr       := value
//! value      := number | boolean | string | call | array | identifier
//! number     := ('+'|'-')? (digit+ ('.' digit*)? | '.' digit+) (('e'|'E') ('+'|'-')? digit+)?
//! boolean    := "true" | "false"
//! string     := '"' (alphanumeric | '\' ('\'|'"'|'r'|'n'|'t'))* '"'
//! array      := '[' (value (',' value)*)? ']'
//! call       := identifier '(' (value (',' value)*)? ')'
//! identifier := '@'? name,   name := '_'? alphanumeric*, not empty
//! ```
//!
//! White space (space, tab, CR, LF) may stand before any value, before `,`,
//! `)` and `]`, and at the end. A name directly followed by `(` is a call.
//! Alternatives are tried in the order above: a text that starts like a
//! number or a boolean is read as one. The whole text must be consumed.
use vstd::prelude::*;
use crate::numtext::nat_text;
use crate::strings::{chars_of, push_text, string_of};
use crate::render::{is_name, escape_text, false_word, render, render_list, renderable, same_tree, true_word};
use crate::roundtrip::{embedded, lemma_bool_words, lemma_embedded_char, lemma_embedded_split, lemma_list_head,
    lemma_name_embed, lemma_number_embed, lemma_render_first, lemma_string_scan, lemma_unescape_escape,
    list_renders_at, list_tail, parsed_as, parsed_list_as, renders_at, is_stop};
use crate::syntax::Expr;

verus! {

pub open spec fn is_space(c: char) -> bool {
    c == ' ' || c == '\t' || c == '\r' || c == '\n'
}

pub open spec fn is_alnum(c: char) -> bool {
    ('0' <= c <= '9') || ('a' <= c <= 'z') || ('A' <= c <= 'Z')
}

pub open spec fn is_digit_char(c: char) -> bool {
    '0' <= c <= '9'
}

/// The characters that may follow a backslash in a string literal.
pub open spec fn is_escape_code(c: char) -> bool {
    c == '\\' || c == '"' || c == 'r' || c == 'n' || c == 't'
}

pub open spec fn escape_value(c: char) -> char {
    if c == 'r' {
        '\r'
    } else if c == 'n' {
        '\n'
    } else if c == 't' {
        '\t'
    } else {
        c
    }
}

/// The end of the run of digits that starts at `i`.
pub open spec fn digits_from(s: Seq<char>, i: int) -> int
    decreases s.len() - i,
{
    if 0 <= i < s.len() && is_digit_char(s[i]) {
        digits_from(s, i + 1)
    } else {
        i
    }
}

pub open spec fn is_sign(c: char) -> bool {
    c == '+' || c == '-'
}

/// The end of a number once its mantissa ends at `end`: after the exponent
/// if one with digits follows, else `end`.
pub open spec fn exponent_end(s: Seq<char>, end: int) -> int {
    if 0 <= end < s.len() && (s[end] == 'e' || s[end] == 'E') {
        let q = if end + 1 < s.len() && is_sign(s[end + 1]) { end + 2 } else { end + 1 };
        let x = digits_from(s, q);
        if x > q {
            x
        } else {
            end
        }
    } else {
        end
    }
}

/// The end of the longest number literal that starts at `p`, if one does.
pub open spec fn number_scan(s: Seq<char>, p: int) -> Option<int> {
    let q = if 0 <= p < s.len() && is_sign(s[p]) { p + 1 } else { p };
    let d = digits_from(s, q);
    if d > q {
        let end = if d < s.len() && s[d] == '.' { digits_from(s, d + 1) } else { d };
        Some(exponent_end(s, end))
    } else if 0 <= q < s.len() && s[q] == '.' {
        let f = digits_from(s, q + 1);
        if f == q + 1 {
            None
        } else {
            Some(exponent_end(s, f))
        }
    } else {
        None
    }
}

/// The text that the escapes `\\`, `\"`, `\r`, `\n`, `\t` of `s` stand
/// for; `None` when a backslash is followed by anything else or ends `s`.
pub open spec fn simple_unescaped(s: Seq<char>) -> Option<Seq<char>>
    decreases s.len(),
{
    if s.len() == 0 {
        Some(Seq::empty())
    } else if s[0] != '\\' {
        match simple_unescaped(s.drop_first()) {
            Some(t) => Some(seq![s[0]] + t),
            None => None,
        }
    } else if s.len() >= 2 && is_escape_code(s[1]) {
        match simple_unescaped(s.subrange(2, s.len() as int)) {
            Some(t) => Some(seq![escape_value(s[1])] + t),
            None => None,
        }
    } else {
        None
    }
}

/// Relies on `unescape::unescape`, which turns `\\`, `\"`, `\r`, `\n` and
/// `\t` into the characters they stand for and copies characters that are
/// not escaped. It reads further escapes as well (`\b`, `\f`, `\'`, `\u`,
/// `\x`, octal); the grammar lets none of them reach it.
#[verifier::external_body]
fn unescape_text(s: &str) -> (r: Option<String>)
    ensures
        simple_unescaped(s@) is Some ==> r is Some && r->Some_0@ == simple_unescaped(s@)->Some_0,
{
    unescape::unescape(s)
}

fn is_space_char(c: char) -> (r: bool)
    ensures
        r == is_space(c),
{
    c == ' ' || c == '\t' || c == '\r' || c == '\n'
}

fn is_alnum_char(c: char) -> (r: bool)
    ensures
        r == is_alnum(c),
{
    ('0' <= c && c <= '9') || ('a' <= c && c <= 'z') || ('A' <= c && c <= 'Z')
}

fn is_digit(c: char) -> (r: bool)
    ensures
        r == is_digit_char(c),
{
    '0' <= c && c <= '9'
}

/// The position after the white space that starts at `pos`.
fn skip_spaces(cs: &Vec<char>, pos: usize) -> (r: usize)
    requires
        pos <= cs@.len(),
    ensures
        pos <= r <= cs@.len(),
        forall|i: int| pos <= i < r ==> is_space(#[trigger] cs@[i]),
        r == cs@.len() || !is_space(cs@[r as int]),
{
    let mut p = pos;
    while p < cs.len() && is_space_char(cs[p])
        invariant
            pos <= p <= cs@.len(),
            forall|i: int| pos <= i < p ==> is_space(#[trigger] cs@[i]),
        decreases cs@.len() - p,
    {
        p = p + 1;
    }
    p
}

/// The position after the digits that start at `pos`.
fn skip_digits(cs: &Vec<char>, pos: usize) -> (r: usize)
    requires
        pos <= cs@.len(),
    ensures
        pos <= r <= cs@.len(),
        r == digits_from(cs@, pos as int),
{
    let mut p = pos;
    while p < cs.len() && is_digit(cs[p])
        invariant
            pos <= p <= cs@.len(),
            digits_from(cs@, pos as int) == digits_from(cs@, p as int),
        decreases cs@.len() - p,
    {
        p = p + 1;
    }
    p
}

/// The end of the number literal that starts at `pos`, if one does.
fn number_end(cs: &Vec<char>, pos: usize) -> (r: Option<usize>)
    requires
        pos <= cs@.len(),
    ensures
        match number_scan(cs@, pos as int) {
            Some(e) => r == Some(e as usize) && pos < e <= cs@.len(),
            None => r is None,
        },
{
    proof {
        lemma_digits_from_bounds(cs@, pos as int);
        lemma_digits_from_bounds(cs@, pos + 1);
    }
    let n = cs.len();
    let mut p = pos;
    if p < n && (cs[p] == '+' || cs[p] == '-') {
        p = p + 1;
    }
    let int_end = skip_digits(cs, p);
    let mut end: usize;
    if int_end > p {
        end = int_end;
        if end < n && cs[end] == '.' {
            end = skip_digits(cs, end + 1);
        }
    } else if p < n && cs[p] == '.' {
        let frac_end = skip_digits(cs, p + 1);
        if frac_end == p + 1 {
            return None;
        }
        end = frac_end;
    } else {
        return None;
    }
    if end < n && (cs[end] == 'e' || cs[end] == 'E') {
        let mut q = end + 1;
        if q < n && (cs[q] == '+' || cs[q] == '-') {
            q = q + 1;
        }
        let exp_end = skip_digits(cs, q);
        if exp_end > q {
            end = exp_end;
        }
    }
    Some(end)
}

proof fn lemma_digits_from_bounds(s: Seq<char>, i: int)
    ensures
        i <= digits_from(s, i),
        0 <= i <= s.len() ==> digits_from(s, i) <= s.len(),
    decreases s.len() - i,
{
    if 0 <= i < s.len() && is_digit_char(s[i]) {
        lemma_digits_from_bounds(s, i + 1);
    }
}

/// Whether the characters from `pos` spell `word`.
fn looking_at(cs: &Vec<char>, pos: usize, word: &str) -> (r: bool)
    requires
        pos <= cs@.len(),
    ensures
        r == (pos + word@.len() <= cs@.len() && cs@.subrange(pos as int, pos + word@.len()) == word@),
{
    let n = word.unicode_len();
    if n > cs.len() - pos {
        return false;
    }
    let mut i: usize = 0;
    while i < n
        invariant
            n == word@.len(),
            pos + n <= cs@.len(),
            cs@.len() == cs.len(),
            i <= n,
            cs@.subrange(pos as int, pos + i) == word@.subrange(0, i as int),
        decreases n - i,
    {
        if cs[pos + i] != word.get_char(i) {
            assert(cs@.subrange(pos as int, pos + n)[i as int] != word@[i as int]);
            return false;
        }
        assert(cs@.subrange(pos as int, pos + i + 1) =~= cs@.subrange(pos as int, pos + i).push(cs@[pos + i]));
        assert(word@.subrange(0, i + 1) =~= word@.subrange(0, i as int).push(word@[i as int]));
        i = i + 1;
    }
    assert(word@.subrange(0, n as int) =~= word@);
    true
}

/// The characters from `from` to `to`.
fn slice_text(cs: &Vec<char>, from: usize, to: usize) -> (r: String)
    requires
        from <= to <= cs@.len(),
    ensures
        r@ == cs@.subrange(from as int, to as int),
{
    let mut v: Vec<char> = Vec::new();
    let mut i = from;
    while i < to
        invariant
            from <= i <= to,
            to <= cs@.len(),
            v@ == cs@.subrange(from as int, i as int),
        decreases to - i,
    {
        v.push(cs[i]);
        assert(v@ =~= cs@.subrange(from as int, i + 1));
        i = i + 1;
    }
    string_of(&v)
}

/// The message for a text that the grammar does not accept.
pub open spec fn parse_error_message(pos: nat, expected: Seq<char>) -> Seq<char> {
    "Parse error at position "@ + crate::numtext::nat_digits(pos) + ": expected "@ + expected
}

fn parse_error(pos: usize, expected: &str) -> (r: String)
    ensures
        r@ == parse_error_message(pos as nat, expected@),
{
    let mut m = String::new();
    push_text(&mut m, "Parse error at position ");
    let p = nat_text(pos as u64);
    push_text(&mut m, p.as_str());
    push_text(&mut m, ": expected ");
    push_text(&mut m, expected);
    m
}

/// The position of the quote that closes a string literal whose inside
/// starts at `i`, if the inside is well formed.
pub open spec fn string_scan(s: Seq<char>, i: int) -> Option<int>
    decreases s.len() - i,
{
    if i < 0 || i >= s.len() {
        None
    } else if s[i] == '"' {
        Some(i)
    } else if is_alnum(s[i]) {
        string_scan(s, i + 1)
    } else if s[i] == '\\' && i + 1 < s.len() && is_escape_code(s[i + 1]) {
        string_scan(s, i + 2)
    } else {
        None
    }
}

/// A string literal whose opening quote is at `pos`: its value and the
/// position after the closing quote.
fn parse_string(cs: &Vec<char>, pos: usize) -> (r: Result<(String, usize), String>)
    requires
        pos < cs@.len(),
        cs@[pos as int] == '"',
    ensures
        r matches Ok((_, e)) ==> pos < e <= cs@.len(),
        string_scan(cs@, pos + 1) is None ==> r is Err,
        string_scan(cs@, pos + 1) matches Some(j) ==> (simple_unescaped(cs@.subrange(pos + 1, j)) is Some
            ==> (r matches Ok((v, e)) && e == j + 1 && v@ == simple_unescaped(cs@.subrange(pos + 1, j))->Some_0)),
{
    let n = cs.len();
    let mut p = pos + 1;
    while p < n && cs[p] != '"'
        invariant
            pos < p <= n,
            n == cs@.len(),
            string_scan(cs@, pos + 1) == string_scan(cs@, p as int),
        decreases n - p,
    {
        let c = cs[p];
        if is_alnum_char(c) {
            p = p + 1;
        } else if c == '\\' && p + 1 < n && (cs[p + 1] == '\\' || cs[p + 1] == '"' || cs[p + 1] == 'r'
            || cs[p + 1] == 'n' || cs[p + 1] == 't') {
            p = p + 2;
        } else {
            return Err(parse_error(p, "a letter, a digit, an escape or '\"'"));
        }
    }
    if p >= n {
        return Err(parse_error(p, "'\"'"));
    }
    let raw = slice_text(cs, pos + 1, p);
    match unescape_text(raw.as_str()) {
        Some(s) => Ok((s, p + 1)),
        None => Err(parse_error(pos + 1, "a string")),
    }
}

/// The end of the identifier name that starts at `pos` (after any `@`).
fn name_end(cs: &Vec<char>, pos: usize) -> (r: usize)
    requires
        pos <= cs@.len(),
    ensures
        pos <= r <= cs@.len(),
        r == name_scan(cs@, pos as int),
{
    let mut p = pos;
    if p < cs.len() && cs[p] == '_' {
        p = p + 1;
    }
    let ghost q = p as int;
    while p < cs.len() && is_alnum_char(cs[p])
        invariant
            pos <= q <= p <= cs@.len(),
            alnum_from(cs@, q) == alnum_from(cs@, p as int),
        decreases cs@.len() - p,
    {
        p = p + 1;
    }
    p
}

/// The end of the run of letters and digits that starts at `i`.
pub open spec fn alnum_from(s: Seq<char>, i: int) -> int
    decreases s.len() - i,
{
    if 0 <= i < s.len() && is_alnum(s[i]) {
        alnum_from(s, i + 1)
    } else {
        i
    }
}

/// The end of the name that starts at `i`.
pub open spec fn name_scan(s: Seq<char>, i: int) -> int {
    alnum_from(s, if 0 <= i < s.len() && s[i] == '_' { i + 1 } else { i })
}

/// A value after optional white space at `pos`: the node and the position
/// after it. Where the canonical text of a tree stands at `pos`, the node
/// is that tree.
fn parse_value(cs: &Vec<char>, pos: usize) -> (r: Result<(Expr, usize), String>)
    requires
        pos <= cs@.len(),
    ensures
        r matches Ok((_, e)) ==> pos < e <= cs@.len(),
        forall|x: Expr| #[trigger] renders_at(cs@, pos as int, x) ==> parsed_as(r, x, pos as int),
        forall|nm: Seq<char>| #[trigger] at_name(cs@, pos as int, nm) ==> (r matches Ok((Expr::Identifier(x), e))
            && x@ == nm && e == pos + 1 + nm.len()),
        bad_string_at(cs@, pos as int) ==> r is Err,
    decreases cs@.len() - pos, 0int,
{
    let p = skip_spaces(cs, pos);
    let n = cs.len();
    let ghost special = (pos < n && (cs@[pos as int] == '@' || cs@[pos as int] == '"'));
    proof {
        assert forall|nm: Seq<char>| #[trigger] at_name(cs@, pos as int, nm) implies special && cs@[pos as int] == '@' by {
            lemma_embedded_char(cs@, pos as int, seq!['@'] + nm, 0);
        }
        if special {
            assert(p == pos) by {
                if p > pos {
                    assert(is_space(cs@[pos as int]));
                }
            }
            assert(digits_from(cs@, pos as int) == pos);
        }
    }
    proof {
        assert forall|x: Expr| #[trigger] renders_at(cs@, pos as int, x) implies p == pos && cs@[pos as int] == render(x)[0] by {
            lemma_render_first(x);
            lemma_embedded_char(cs@, pos as int, render(x), 0);
        }
    }
    if let Some(e) = number_end(cs, p) {
        assert(!special);
        let t = slice_text(cs, p, e);
        let res: Result<(Expr, usize), String> = Ok((Expr::Num(t), e));
        proof {
            assert forall|x: Expr| #[trigger] renders_at(cs@, pos as int, x) implies parsed_as(res, x, pos as int) by {
                lemma_render_first(x);
                if let Expr::Num(tt) = x {
                    lemma_number_embed(cs@, pos as int, tt@);
                    assert(t@ =~= tt@);
                } else {
                    assert(digits_from(cs@, pos as int) == pos);
                }
            }
        }
        return res;
    }
    proof {
        assert forall|x: Expr| #[trigger] renders_at(cs@, pos as int, x) implies !(x is Num) by {
            if let Expr::Num(tt) = x {
                lemma_number_embed(cs@, pos as int, tt@);
            }
        }
    }
    let is_false = looking_at(cs, p, "false");
    proof {
        reveal_strlit("false");
        assert("false"@ =~= false_word());
        assert forall|x: Expr| #[trigger] renders_at(cs@, pos as int, x) implies is_false == (x == Expr::Boolean(false)) by {
            lemma_bool_words(cs@, pos as int, x);
        }
    }
    if is_false {
        assert(!special) by {
            if special {
                assert(cs@.subrange(p as int, p + 5)[0] == cs@[p as int]);
            }
        }
        return Ok((Expr::Boolean(false), p + 5));
    }
    let is_true = looking_at(cs, p, "true");
    proof {
        reveal_strlit("true");
        assert("true"@ =~= true_word());
        assert forall|x: Expr| #[trigger] renders_at(cs@, pos as int, x) implies is_true == (x == Expr::Boolean(true)) by {
            lemma_bool_words(cs@, pos as int, x);
        }
    }
    if is_true {
        assert(!special) by {
            if special {
                assert(cs@.subrange(p as int, p + 4)[0] == cs@[p as int]);
            }
        }
        return Ok((Expr::Boolean(true), p + 4));
    }
    if p < n && cs[p] == '"' {
        let res = match parse_string(cs, p) {
            Ok((s, e)) => Ok((Expr::Str(s), e)),
            Err(m) => Err(m),
        };
        proof {
            assert forall|x: Expr| #[trigger] renders_at(cs@, pos as int, x) implies parsed_as(res, x, pos as int) by {
                lemma_render_first(x);
                if let Expr::Str(sx) = x {
                    let et = escape_text(sx@);
                    let whole = render(x);
                    assert(whole == seq!['"'] + et + seq!['"']);
                    lemma_embedded_split(cs@, pos as int, seq!['"'] + et, seq!['"']);
                    lemma_embedded_split(cs@, pos as int, seq!['"'], et);
                    lemma_embedded_char(cs@, pos as int, whole, whole.len() - 1);
                    lemma_string_scan(cs@, pos + 1, sx@);
                    lemma_unescape_escape(sx@);
                    assert(cs@.subrange(pos + 1, pos + 1 + et.len()) == et);
                }
            }
        }
        return res;
    }
    if p < n && cs[p] == '[' {
        let res = match parse_items(cs, p + 1, ']') {
            Ok((items, e)) => Ok((Expr::Array(items), e)),
            Err(m) => Err(m),
        };
        proof {
            assert forall|x: Expr| #[trigger] renders_at(cs@, pos as int, x) implies parsed_as(res, x, pos as int) by {
                lemma_render_first(x);
                if let Expr::Array(v) = x {
                    let l = render_list(v@, 0);
                    assert(render(x) == seq!['['] + (l + seq![']']));
                    lemma_embedded_split(cs@, pos as int, seq!['['], l + seq![']']);
                    assert(list_renders_at(cs@, pos + 1, v@, ']'));
                }
            }
        }
        return res;
    }
    proof {
        assert forall|x: Expr| #[trigger] renders_at(cs@, pos as int, x) implies (x is Identifier || x is FunctionCall) by {
            lemma_render_first(x);
        }
    }
    let start = if p < n && cs[p] == '@' { p + 1 } else { p };
    let end = name_end(cs, start);
    proof {
        assert forall|nm: Seq<char>| #[trigger] at_name(cs@, pos as int, nm) implies start == pos + 1 && end == pos + 1 + nm.len()
            && cs@.subrange(start as int, end as int) == nm && !(end < n && cs@[end as int] == '(') by {
            lemma_embedded_split(cs@, pos as int, seq!['@'], nm);
            lemma_name_embed(cs@, pos + 1, nm);
        }
    }
    proof {
        assert forall|x: Expr| #[trigger] renders_at(cs@, pos as int, x) implies start == pos && end == pos + name_of(x).len()
            && cs@.subrange(pos as int, end as int) == name_of(x)
            && ((end < n && cs@[end as int] == '(') == (x is FunctionCall)) by {
            lemma_render_first(x);
            let t = render(x);
            let nm = name_of(x);
            assert(t.subrange(0, nm.len() as int) =~= nm);
            assert(nm + t.subrange(nm.len() as int, t.len() as int) =~= t);
            lemma_embedded_split(cs@, pos as int, nm, t.subrange(nm.len() as int, t.len() as int));
            if x is FunctionCall {
                assert(t[nm.len() as int] == '(');
                lemma_embedded_char(cs@, pos as int, t, nm.len() as int);
            } else {
                assert(t =~= nm);
            }
            lemma_name_embed(cs@, pos as int, nm);
        }
    }
    if end == start {
        return Err(parse_error(p, "a value"));
    }
    let name = slice_text(cs, start, end);
    if end < n && cs[end] == '(' {
        let res = match parse_items(cs, end + 1, ')') {
            Ok((args, e)) => Ok((Expr::FunctionCall(name, args), e)),
            Err(m) => Err(m),
        };
        proof {
            assert forall|x: Expr| #[trigger] renders_at(cs@, pos as int, x) implies parsed_as(res, x, pos as int) by {
                if let Expr::FunctionCall(nx, v) = x {
                    let l = render_list(v@, 0);
                    assert(render(x) == nx@ + seq!['('] + (l + seq![')']));
                    assert(render(x) =~= (nx@ + seq!['(']) + (l + seq![')']));
                    lemma_embedded_split(cs@, pos as int, nx@ + seq!['('], l + seq![')']);
                    assert(list_renders_at(cs@, end + 1, v@, ')'));
                }
            }
        }
        res
    } else {
        let res: Result<(Expr, usize), String> = Ok((Expr::Identifier(name), end));
        proof {
            assert forall|nm: Seq<char>| #[trigger] at_name(cs@, pos as int, nm) implies name@ == nm by {
                assert(name@ =~= nm);
            }
            assert forall|x: Expr| #[trigger] renders_at(cs@, pos as int, x) implies parsed_as(res, x, pos as int) by {
                if let Expr::Identifier(nx) = x {
                    assert(name@ =~= nx@);
                }
            }
        }
        res
    }
}

/// An identifier written with `@` before its name stands at `pos`,
/// followed by the end of `s` or by a character that may follow a value.
pub open spec fn at_name(s: Seq<char>, pos: int, nm: Seq<char>) -> bool {
    &&& is_name(nm)
    &&& embedded(s, pos, seq!['@'] + nm)
    &&& (pos + 1 + nm.len() == s.len() || is_stop(s[pos + 1 + nm.len()]))
}

/// A string literal that is not well formed (an unknown escape, a
/// character that is not a letter or digit, or no closing quote) starts at `pos`.
pub open spec fn bad_string_at(s: Seq<char>, pos: int) -> bool {
    0 <= pos < s.len() && s[pos] == '"' && string_scan(s, pos + 1) is None
}

/// The name at the start of an identifier's or a call's canonical text.
pub open spec fn name_of(x: Expr) -> Seq<char> {
    match x {
        Expr::Identifier(n) => n@,
        Expr::FunctionCall(n, _) => n@,
        _ => Seq::empty(),
    }
}

/// The values of a list whose opening bracket ends before `pos`, separated
/// by `,` and closed by `close`: the nodes and the position after `close`.
/// Where the canonical texts of trees stand there, the nodes are those trees.
fn parse_items(cs: &Vec<char>, pos: usize, close: char) -> (r: Result<(Vec<Expr>, usize), String>)
    requires
        pos <= cs@.len(),
        close == ')' || close == ']',
    ensures
        r matches Ok((_, e)) ==> pos < e <= cs@.len(),
        forall|items: Seq<Expr>| #[trigger] list_renders_at(cs@, pos as int, items, close) ==> parsed_list_as(r, items, pos as int),
    decreases cs@.len() - pos, 1int,
{
    let n = cs.len();
    let mut items: Vec<Expr> = Vec::new();
    let p0 = skip_spaces(cs, pos);
    proof {
        assert forall|its: Seq<Expr>| #[trigger] list_renders_at(cs@, pos as int, its, close) implies p0 == pos
            && (its.len() == 0) == (pos < n && cs@[pos as int] == close) by {
            let l = render_list(its, 0);
            lemma_embedded_char(cs@, pos as int, l + seq![close], 0);
            if its.len() > 0 {
                lemma_list_head(its, 0);
                lemma_render_first(its[0]);
                assert((l + seq![close])[0] == render(its[0])[0]);
            } else {
                assert(l + seq![close] =~= seq![close]);
            }
        }
    }
    if p0 < n && cs[p0] == close {
        let res: Result<(Vec<Expr>, usize), String> = Ok((items, p0 + 1));
        proof {
            assert forall|its: Seq<Expr>| #[trigger] list_renders_at(cs@, pos as int, its, close) implies parsed_list_as(res, its, pos as int) by {
            }
        }
        return res;
    }
    let first = parse_value(cs, pos);
    proof {
        assert forall|its: Seq<Expr>| #[trigger] list_renders_at(cs@, pos as int, its, close) implies its.len() >= 1
            && renders_at(cs@, pos as int, its[0])
            && embedded(cs@, pos + render(its[0]).len(), list_tail(its, 1) + seq![close])
            && render_list(its, 0).len() == render(its[0]).len() + list_tail(its, 1).len() by {
            assert(its.len() != 0);
            lemma_list_head(its, 0);
            let h = render(its[0]);
            let tl = list_tail(its, 1) + seq![close];
            assert(render_list(its, 0) + seq![close] =~= h + tl);
            lemma_embedded_split(cs@, pos as int, h, tl);
            lemma_embedded_char(cs@, pos + h.len(), tl, 0);
        }
    }
    let (v0, e0) = match first {
        Ok(x) => x,
        Err(m) => {
            return Err(m);
        },
    };
    items.push(v0);
    let mut p = e0;
    proof {
        assert forall|its: Seq<Expr>| #[trigger] list_renders_at(cs@, pos as int, its, close) implies
            crate::render::same_tree(items@[0], its[0]) by {
            assert(renders_at(cs@, pos as int, its[0]));
            assert(parsed_as(first, its[0], pos as int));
        }
    }
    loop
        invariant
            pos < p <= n,
            n == cs@.len(),
            close == ')' || close == ']',
            items@.len() >= 1,
            forall|its: Seq<Expr>| #[trigger] list_renders_at(cs@, pos as int, its, close) ==> {
                &&& items@.len() <= its.len()
                &&& forall|i: int| 0 <= i < items@.len() ==> crate::render::same_tree(#[trigger] items@[i], its[i])
                &&& embedded(cs@, p as int, list_tail(its, items@.len() as int) + seq![close])
                &&& p + list_tail(its, items@.len() as int).len() == pos + render_list(its, 0).len()
            },
        decreases n - p,
    {
        let q = skip_spaces(cs, p);
        let ghost j = items@.len() as int;
        proof {
            assert forall|its: Seq<Expr>| #[trigger] list_renders_at(cs@, pos as int, its, close) implies q == p
                && (j < its.len()) == (p < n && cs@[p as int] == ',')
                && (j == its.len()) == (p < n && cs@[p as int] == close) by {
                let tl = list_tail(its, j) + seq![close];
                assert(items@.len() <= its.len());
                assert(embedded(cs@, p as int, tl));
                lemma_embedded_char(cs@, p as int, tl, 0);
                assert(cs@[p as int] == tl[0]);
                if j < its.len() {
                    assert(list_tail(its, j)[0] == ',');
                    assert(tl[0] == ',');
                } else {
                    assert(list_tail(its, j) =~= Seq::<char>::empty());
                    assert(tl =~= seq![close]);
                    assert(tl[0] == close);
                }
                if q > p {
                    assert(is_space(cs@[p as int]));
                }
            }
        }
        if q < n && cs[q] == ',' {
            let next = parse_value(cs, q + 1);
            proof {
                assert forall|its: Seq<Expr>| #[trigger] list_renders_at(cs@, pos as int, its, close) implies renders_at(cs@, q + 1, its[j])
                    && embedded(cs@, q + 1 + render(its[j]).len(), list_tail(its, j + 1) + seq![close]) by {
                    assert(q == p);
                    assert(j < its.len());
                    lemma_list_head(its, j);
                    let h = render(its[j]);
                    let tl = list_tail(its, j + 1) + seq![close];
                    assert(list_tail(its, j) + seq![close] =~= seq![','] + (h + tl));
                    lemma_embedded_split(cs@, p as int, seq![','], h + tl);
                    lemma_embedded_split(cs@, p + 1, h, tl);
                    lemma_embedded_char(cs@, p + 1 + h.len(), tl, 0);
                }
            }
            let (v, e2) = match next {
                Ok(x) => x,
                Err(m) => {
                    return Err(m);
                },
            };
            let ghost before = items@;
            items.push(v);
            p = e2;
            proof {
                assert forall|its: Seq<Expr>| #[trigger] list_renders_at(cs@, pos as int, its, close) implies
                    forall|i: int| 0 <= i < items@.len() ==> crate::render::same_tree(#[trigger] items@[i], its[i]) by {
                    assert forall|i: int| 0 <= i < items@.len() implies crate::render::same_tree(#[trigger] items@[i], its[i]) by {
                        if i < j {
                            assert(items@[i] == before[i]);
                        }
                    }
                }
                assert forall|its: Seq<Expr>| #[trigger] list_renders_at(cs@, pos as int, its, close) implies
                    p + list_tail(its, j + 1).len() == pos + render_list(its, 0).len() by {
                    lemma_list_head(its, j);
                }
            }
        } else if q < n && cs[q] == close {
            return Ok((items, q + 1));
        } else {
            return Err(parse_error(q, if close == ')' { "',' or ')'" } else { "',' or ']'" }));
        }
    }
}

/// Parses a whole expression; white space may surround it, and nothing
/// else may follow it.
///
/// Reading back the canonical text of a tree (`render`) gives the same
/// tree, for every tree whose text can be read back at all (`renderable`):
/// booleans, complete number literals, strings of letters, digits and
/// escapable characters, names, arrays and calls of these.
pub fn parse_expr(expression: &str) -> (r: Result<Expr, String>)
    ensures
        forall|e: Expr| renderable(e) && #[trigger] render(e) == expression@ ==> (r matches Ok(x) && same_tree(x, e)),
        forall|nm: Seq<char>| is_name(nm) && #[trigger] (seq!['@'] + nm) == expression@ ==> (r matches Ok(Expr::Identifier(x)) && x@ == nm),
        forall|e: Expr| #[trigger] renders_at(expression@, 0, e) && !all_spaces_from(expression@, render(e).len() as int) ==> r is Err,
        bad_string_at(expression@, 0) ==> r is Err,
{
    let cs = chars_of(expression);
    proof {
        assert forall|e: Expr| renderable(e) && #[trigger] render(e) == expression@ implies renders_at(cs@, 0, e) by {
            assert(cs@.subrange(0, render(e).len() as int) =~= render(e));
        }
        assert forall|nm: Seq<char>| is_name(nm) && #[trigger] (seq!['@'] + nm) == expression@ implies at_name(cs@, 0, nm) by {
            assert(cs@.subrange(0, 1 + nm.len() as int) =~= seq!['@'] + nm);
        }
    }
    let (e, end) = parse_value(&cs, 0)?;
    let p = skip_spaces(&cs, end);
    if p < cs.len() {
        return Err(parse_error(p, "the end of the expression"));
    }
    proof {
        assert forall|x: Expr| #[trigger] renders_at(expression@, 0, x) implies all_spaces_from(expression@, render(x).len() as int) by {
            assert(parsed_as(Ok::<(Expr, usize), String>((e, end)), x, 0));
        }
        assert forall|nm: Seq<char>| is_name(nm) && #[trigger] (seq!['@'] + nm) == expression@ implies (e matches Expr::Identifier(x) && x@ == nm) by {
            assert(at_name(cs@, 0, nm));
        }
    }
    Ok(e)
}

/// Every character of `s` from `i` on is white space.
pub open spec fn all_spaces_from(s: Seq<char>, i: int) -> bool {
    forall|j: int| i <= j < s.len() ==> is_space(#[trigger] s[j])
}

} // verus!
