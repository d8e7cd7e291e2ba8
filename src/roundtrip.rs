//! Facts about reading back canonical texts: the scanners of the grammar
//! stop exactly at the end of a rendered token.
use vstd::prelude::*;
use crate::parser::{alnum_from, digits_from, exponent_end, is_alnum, is_digit_char, is_escape_code,
    is_sign, is_space, name_scan, number_scan, simple_unescaped, string_scan, escape_value};
use crate::render::{escape_text, escaped_char, false_word, is_name, is_string_char, render, render_list,
    renderable, starts_with_word, true_word};
use crate::syntax::Expr;

verus! {

/// The characters that may follow a value.
pub open spec fn is_stop(c: char) -> bool {
    c == ',' || c == ')' || c == ']' || is_space(c)
}

/// `t` stands in `s` at `p`.
pub open spec fn embedded(s: Seq<char>, p: int, t: Seq<char>) -> bool {
    0 <= p && p + t.len() <= s.len() && s.subrange(p, p + t.len()) == t
}

/// The canonical text of `e` stands at `p` in `s`, followed by the end of
/// `s` or by a character that may follow a value.
pub open spec fn renders_at(s: Seq<char>, p: int, e: Expr) -> bool {
    let t = render(e);
    &&& renderable(e)
    &&& embedded(s, p, t)
    &&& (p + t.len() == s.len() || is_stop(s[p + t.len()]))
}

proof fn lemma_digits_embed(s: Seq<char>, p: int, t: Seq<char>, i: int)
    requires
        embedded(s, p, t),
        p + t.len() == s.len() || !is_digit_char(s[p + t.len()]),
        0 <= i <= t.len(),
    ensures
        digits_from(s, p + i) == p + digits_from(t, i),
    decreases t.len() - i,
{
    if i < t.len() {
        assert(s[p + i] == t[i]);
        if is_digit_char(t[i]) {
            lemma_digits_embed(s, p, t, i + 1);
        }
    }
}

proof fn lemma_alnum_embed(s: Seq<char>, p: int, t: Seq<char>, i: int)
    requires
        embedded(s, p, t),
        p + t.len() == s.len() || !is_alnum(s[p + t.len()]),
        0 <= i <= t.len(),
    ensures
        alnum_from(s, p + i) == p + alnum_from(t, i),
    decreases t.len() - i,
{
    if i < t.len() {
        assert(s[p + i] == t[i]);
        if is_alnum(t[i]) {
            lemma_alnum_embed(s, p, t, i + 1);
        }
    }
}

proof fn lemma_digits_within(t: Seq<char>, i: int)
    requires
        0 <= i <= t.len(),
    ensures
        i <= digits_from(t, i) <= t.len(),
    decreases t.len() - i,
{
    if i < t.len() && is_digit_char(t[i]) {
        lemma_digits_within(t, i + 1);
    }
}

proof fn lemma_alnum_all(t: Seq<char>, i: int)
    requires
        0 <= i <= t.len(),
        forall|k: int| i <= k < t.len() ==> is_alnum(#[trigger] t[k]),
    ensures
        alnum_from(t, i) == t.len(),
    decreases t.len() - i,
{
    if i < t.len() {
        lemma_alnum_all(t, i + 1);
    }
}

/// A complete number literal followed by a stop reads as itself.
pub proof fn lemma_number_embed(s: Seq<char>, p: int, t: Seq<char>)
    requires
        embedded(s, p, t),
        number_scan(t, 0) == Some(t.len() as int),
        p + t.len() == s.len() || is_stop(s[p + t.len()]),
    ensures
        number_scan(s, p) == Some(p + t.len()),
{
    let n = t.len() as int;
    assert(n > 0) by {
        if n == 0 {
            assert(digits_from(t, 0) == 0);
        }
    }
    assert(s[p] == t[0]);
    let q: int = if is_sign(t[0]) { 1 } else { 0 };
    lemma_digits_embed(s, p, t, q);
    lemma_digits_within(t, q);
    let d = digits_from(t, q);
    if d < n {
        assert(s[p + d] == t[d]);
    }
    if d + 1 <= n {
        lemma_digits_embed(s, p, t, d + 1);
        lemma_digits_within(t, d + 1);
    }
    if q + 1 <= n {
        lemma_digits_embed(s, p, t, q + 1);
        lemma_digits_within(t, q + 1);
    }
    if q < n {
        assert(s[p + q] == t[q]);
    }
    let end: int = if d > q {
        if d < n && t[d] == '.' { digits_from(t, d + 1) } else { d }
    } else {
        digits_from(t, q + 1)
    };
    if 0 <= end <= n {
        if end < n {
            assert(s[p + end] == t[end]);
        }
        if end + 1 < n {
            assert(s[p + end + 1] == t[end + 1]);
        }
        if end + 1 <= n {
            lemma_digits_embed(s, p, t, end + 1);
        }
        if end + 2 <= n {
            lemma_digits_embed(s, p, t, end + 2);
        }
    }
}

/// A name followed by a character that is not a letter or digit reads as itself.
pub proof fn lemma_name_embed(s: Seq<char>, p: int, n: Seq<char>)
    requires
        embedded(s, p, n),
        is_name(n),
        p + n.len() == s.len() || !is_alnum(s[p + n.len()]),
    ensures
        name_scan(s, p) == p + n.len(),
{
    assert(s[p] == n[0]);
    let i: int = if n[0] == '_' { 1 } else { 0 };
    lemma_alnum_embed(s, p, n, i);
    lemma_alnum_all(n, i);
}

/// The inside of a rendered string literal ends at its closing quote.
pub proof fn lemma_string_scan(s: Seq<char>, i: int, x: Seq<char>)
    requires
        forall|k: int| 0 <= k < x.len() ==> is_string_char(#[trigger] x[k]),
        embedded(s, i, escape_text(x)),
        i + escape_text(x).len() < s.len(),
        s[i + escape_text(x).len()] == '"',
    ensures
        string_scan(s, i) == Some(i + escape_text(x).len()),
    decreases x.len(),
{
    if x.len() > 0 {
        let c = x[0];
        let e = escaped_char(c);
        let rest = x.drop_first();
        assert(escape_text(x) == e + escape_text(rest));
        assert forall|k: int| 0 <= k < rest.len() implies is_string_char(#[trigger] rest[k]) by {
            assert(rest[k] == x[k + 1]);
        }
        assert(is_string_char(c));
        assert(s[i] == escape_text(x)[0]);
        if e.len() == 2 {
            assert(s[i + 1] == escape_text(x)[1]);
        }
        assert(s.subrange(i + e.len(), i + e.len() + escape_text(rest).len()) =~= escape_text(rest)) by {
            assert forall|k: int| 0 <= k < escape_text(rest).len() implies
                s.subrange(i + e.len(), i + e.len() + escape_text(rest).len())[k] == escape_text(rest)[k] by {
                assert(s[i + e.len() + k] == escape_text(x)[e.len() + k]);
            }
        }
        lemma_string_scan(s, i + e.len(), rest);
    }
}

/// Reading the escapes of a rendered string gives the string back.
pub proof fn lemma_unescape_escape(x: Seq<char>)
    requires
        forall|k: int| 0 <= k < x.len() ==> is_string_char(#[trigger] x[k]),
    ensures
        simple_unescaped(escape_text(x)) == Some(x),
    decreases x.len(),
{
    if x.len() > 0 {
        let c = x[0];
        let rest = x.drop_first();
        assert forall|k: int| 0 <= k < rest.len() implies is_string_char(#[trigger] rest[k]) by {
            assert(rest[k] == x[k + 1]);
        }
        lemma_unescape_escape(rest);
        let t = escape_text(x);
        assert(t == escaped_char(c) + escape_text(rest));
        assert(is_string_char(c));
        if is_alnum(c) {
            assert(t.drop_first() =~= escape_text(rest));
        } else {
            assert(t.subrange(2, t.len() as int) =~= escape_text(rest));
            assert(is_escape_code(t[1]));
            assert(escape_value(t[1]) == c);
        }
        assert(seq![c] + rest =~= x);
    } else {
        assert(x =~= Seq::<char>::empty());
    }
}

/// The first character of a canonical text tells which kind of node it is.
pub proof fn lemma_render_first(e: Expr)
    requires
        renderable(e),
    ensures
        render(e).len() > 0,
        ({
            let c = render(e)[0];
            &&& (e is Num) == (is_sign(c) || is_digit_char(c) || c == '.')
            &&& (e is Str) == (c == '"')
            &&& (e is Array) == (c == '[')
            &&& e is Boolean ==> (c == 't' || c == 'f')
            &&& (e is Identifier || e is FunctionCall) ==> (c == '_' || (is_alnum(c) && !is_digit_char(c)))
            &&& !is_space(c) && !is_stop(c) && c != '@'
        }),
{
    match e {
        Expr::Num(t) => {
            assert(t@.len() > 0) by {
                if t@.len() == 0 {
                    assert(digits_from(t@, 0) == 0);
                }
            }
            let q: int = if is_sign(t@[0]) { 1 } else { 0 };
            if !is_sign(t@[0]) && !is_digit_char(t@[0]) {
                assert(digits_from(t@, 0) == 0);
            }
        },
        Expr::Boolean(b) => {},
        _ => {},
    }
}

/// The text after the first `j` items of a list: a `,` and the rest, or
/// nothing after the last.
pub open spec fn list_tail(items: Seq<Expr>, j: int) -> Seq<char> {
    if j < items.len() {
        seq![','] + render_list(items, j)
    } else {
        Seq::empty()
    }
}

/// The canonical texts of `items`, separated by `,` and followed by
/// `close`, stand at `pos` in `s`.
pub open spec fn list_renders_at(s: Seq<char>, pos: int, items: Seq<Expr>, close: char) -> bool {
    &&& forall|i: int| 0 <= i < items.len() ==> renderable(#[trigger] items[i])
    &&& embedded(s, pos, render_list(items, 0) + seq![close])
}

/// The parse gave a tree the same as `e`, ending after its canonical text.
pub open spec fn parsed_as(r: Result<(Expr, usize), String>, e: Expr, pos: int) -> bool {
    r matches Ok((x, end)) && crate::render::same_tree(x, e) && end == pos + render(e).len()
}

/// The parse gave trees the same as `items`, ending after the closing bracket.
pub open spec fn parsed_list_as(r: Result<(Vec<Expr>, usize), String>, items: Seq<Expr>, pos: int) -> bool {
    r matches Ok((xs, end)) && xs@.len() == items.len()
        && (forall|i: int| 0 <= i < items.len() ==> crate::render::same_tree(#[trigger] xs@[i], items[i]))
        && end == pos + render_list(items, 0).len() + 1
}

pub proof fn lemma_embedded_split(s: Seq<char>, p: int, a: Seq<char>, b: Seq<char>)
    requires
        embedded(s, p, a + b),
    ensures
        embedded(s, p, a),
        embedded(s, p + a.len(), b),
{
    let st = s.subrange(p, p + (a + b).len());
    assert forall|k: int| 0 <= k < a.len() implies #[trigger] s.subrange(p, p + a.len())[k] == a[k] by {
        assert(st[k] == (a + b)[k]);
    }
    assert forall|k: int| 0 <= k < b.len() implies #[trigger] s.subrange(p + a.len(), p + a.len() + b.len())[k] == b[k] by {
        assert(st[a.len() + k] == (a + b)[a.len() + k]);
    }
    assert(s.subrange(p, p + a.len()) =~= a);
    assert(s.subrange(p + a.len(), p + a.len() + b.len()) =~= b);
}

pub proof fn lemma_embedded_char(s: Seq<char>, p: int, t: Seq<char>, k: int)
    requires
        embedded(s, p, t),
        0 <= k < t.len(),
    ensures
        s[p + k] == t[k],
{
    assert(s.subrange(p, p + t.len())[k] == t[k]);
}

/// The rendered list is its first item and what follows it.
pub proof fn lemma_list_head(items: Seq<Expr>, j: int)
    requires
        0 <= j < items.len(),
    ensures
        render_list(items, j) == render(items[j]) + list_tail(items, j + 1),
{
    if j == items.len() - 1 {
        assert(render(items[j]) + Seq::<char>::empty() =~= render(items[j]));
    } else {
        assert(render(items[j]) + seq![','] + render_list(items, j + 1) =~= render(items[j]) + (seq![','] + render_list(items, j + 1)));
    }
}

pub open spec fn looks(s: Seq<char>, p: int, w: Seq<char>) -> bool {
    0 <= p && p + w.len() <= s.len() && s.subrange(p, p + w.len()) == w
}

/// Only a rendered boolean starts with a boolean word.
pub proof fn lemma_bool_words(s: Seq<char>, p: int, e: Expr)
    requires
        renders_at(s, p, e),
    ensures
        looks(s, p, false_word()) == (e == Expr::Boolean(false)),
        looks(s, p, true_word()) == (e == Expr::Boolean(true)),
{
    lemma_render_first(e);
    lemma_embedded_char(s, p, render(e), 0);
    let t = render(e);
    match e {
        Expr::Boolean(b) => {
            if b {
                assert(s[p] == 't');
                if looks(s, p, false_word()) {
                    assert(s.subrange(p, p + 5)[0] == 'f');
                }
            } else {
                assert(s[p] == 'f');
                if looks(s, p, true_word()) {
                    assert(s.subrange(p, p + 4)[0] == 't');
                }
            }
        },
        Expr::Identifier(n) => {
            assert(t.subrange(0, n@.len() as int) =~= n@);
            lemma_no_word_name(s, p, n@, t, true_word());
            lemma_no_word_name(s, p, n@, t, false_word());
        },
        Expr::FunctionCall(n, args) => {
            assert(t.subrange(0, n@.len() as int) =~= n@);
            assert(t[n@.len() as int] == '(');
            lemma_no_word_name(s, p, n@, t, true_word());
            lemma_no_word_name(s, p, n@, t, false_word());
        },
        _ => {
            if looks(s, p, false_word()) {
                assert(s.subrange(p, p + 5)[0] == 'f');
            }
            if looks(s, p, true_word()) {
                assert(s.subrange(p, p + 4)[0] == 't');
            }
        },
    }
}

proof fn lemma_no_word_name(s: Seq<char>, p: int, n: Seq<char>, t: Seq<char>, w: Seq<char>)
    requires
        is_name(n),
        w == true_word() || w == false_word(),
        embedded(s, p, t),
        t.len() >= n.len(),
        t.subrange(0, n.len() as int) == n,
        t.len() > n.len() ==> !is_alnum(t[n.len() as int]),
        t.len() == n.len() ==> (p + t.len() == s.len() || is_stop(s[p + t.len()])),
    ensures
        !looks(s, p, w),
{
    if looks(s, p, w) {
        if n.len() >= w.len() {
            assert(n.subrange(0, w.len() as int) =~= w) by {
                assert forall|k: int| 0 <= k < w.len() implies n[k] == w[k] by {
                    assert(t.subrange(0, n.len() as int)[k] == t[k]);
                    lemma_embedded_char(s, p, t, k);
                    assert(s.subrange(p, p + w.len())[k] == s[p + k]);
                }
            }
        } else {
            let k = n.len() as int;
            assert(s.subrange(p, p + w.len())[k] == s[p + k]);
            assert(is_alnum(w[k]));
            if t.len() > n.len() {
                lemma_embedded_char(s, p, t, k);
            }
        }
    }
}

} // verus!
