//! The canonical text of a syntax tree, and structural equality of trees.
use vstd::prelude::*;
use crate::parser::{is_alnum, is_digit_char, number_scan};
use crate::strings::{push_char, push_text};
use crate::syntax::Expr;

verus! {

broadcast use vstd::seq::axiom_seq_index_decreases, vstd::std_specs::vec::axiom_vec_decreases_to_view;

/// The characters a string literal may hold, once its escapes are read.
pub open spec fn is_string_char(c: char) -> bool {
    is_alnum(c) || c == '\\' || c == '"' || c == '\r' || c == '\n' || c == '\t'
}

/// How a character is written inside a string literal.
pub open spec fn escaped_char(c: char) -> Seq<char> {
    if c == '\\' {
        seq!['\\', '\\']
    } else if c == '"' {
        seq!['\\', '"']
    } else if c == '\r' {
        seq!['\\', 'r']
    } else if c == '\n' {
        seq!['\\', 'n']
    } else if c == '\t' {
        seq!['\\', 't']
    } else {
        seq![c]
    }
}

/// The inside of a string literal for a text.
pub open spec fn escape_text(s: Seq<char>) -> Seq<char>
    decreases s.len(),
{
    if s.len() == 0 {
        Seq::empty()
    } else {
        escaped_char(s[0]) + escape_text(s.drop_first())
    }
}

pub open spec fn starts_with_word(s: Seq<char>, w: Seq<char>) -> bool {
    s.len() >= w.len() && s.subrange(0, w.len() as int) == w
}

pub open spec fn true_word() -> Seq<char> {
    seq!['t', 'r', 'u', 'e']
}

pub open spec fn false_word() -> Seq<char> {
    seq!['f', 'a', 'l', 's', 'e']
}

/// A name that reads back as itself: `_` or a letter, then letters and
/// digits (an `_` may be followed by a digit), and not starting with a
/// boolean word.
pub open spec fn is_name(n: Seq<char>) -> bool {
    &&& n.len() >= 1
    &&& n[0] == '_' || (is_alnum(n[0]) && !is_digit_char(n[0]))
    &&& forall|i: int| 1 <= i < n.len() ==> is_alnum(#[trigger] n[i])
    &&& !starts_with_word(n, true_word())
    &&& !starts_with_word(n, false_word())
}

/// Whether the canonical text of a tree reads back as the same tree: texts
/// hold only letters, digits and escapable characters, number literals are
/// complete, names are names, and no call is bound.
pub open spec fn renderable(e: Expr) -> bool
    decreases e,
{
    match e {
        Expr::Str(s) => forall|i: int| 0 <= i < s@.len() ==> is_string_char(#[trigger] s@[i]),
        Expr::Boolean(_) => true,
        Expr::Num(t) => number_scan(t@, 0) == Some(t@.len() as int),
        Expr::Identifier(n) => is_name(n@),
        Expr::Array(items) => forall|i: int| 0 <= i < items@.len() ==> renderable(#[trigger] items@[i]),
        Expr::FunctionCall(n, args) => is_name(n@) && forall|i: int| 0 <= i < args@.len() ==> renderable(#[trigger] args@[i]),
        Expr::PreparedFunctionCall(..) => false,
    }
}

/// The canonical text of a tree: no white space, `,` between items.
pub open spec fn render(e: Expr) -> Seq<char>
    decreases e, 0int,
{
    match e {
        Expr::Str(s) => seq!['"'] + escape_text(s@) + seq!['"'],
        Expr::Boolean(b) => if b { true_word() } else { false_word() },
        Expr::Num(t) => t@,
        Expr::Identifier(n) => n@,
        Expr::Array(items) => seq!['['] + render_list(items@, 0) + seq![']'],
        Expr::FunctionCall(n, args) => n@ + seq!['('] + render_list(args@, 0) + seq![')'],
        Expr::PreparedFunctionCall(n, args, _) => n@ + seq!['('] + render_list(args@, 0) + seq![')'],
    }
}

/// The items from index `i` on, separated by `,`.
pub open spec fn render_list(items: Seq<Expr>, i: int) -> Seq<char>
    decreases items, items.len() - i,
{
    if i < 0 || i >= items.len() {
        Seq::empty()
    } else if i == items.len() - 1 {
        render(items[i])
    } else {
        render(items[i]) + seq![','] + render_list(items, i + 1)
    }
}

/// Structural equality of trees, comparing texts by their characters.
pub open spec fn same_tree(a: Expr, b: Expr) -> bool
    decreases a,
{
    match (a, b) {
        (Expr::Str(x), Expr::Str(y)) => x@ == y@,
        (Expr::Boolean(x), Expr::Boolean(y)) => x == y,
        (Expr::Num(x), Expr::Num(y)) => x@ == y@,
        (Expr::Identifier(x), Expr::Identifier(y)) => x@ == y@,
        (Expr::Array(x), Expr::Array(y)) => x@.len() == y@.len()
            && forall|i: int| 0 <= i < x@.len() ==> same_tree(#[trigger] x@[i], y@[i]),
        (Expr::FunctionCall(n, x), Expr::FunctionCall(m, y)) => n@ == m@ && x@.len() == y@.len()
            && forall|i: int| 0 <= i < x@.len() ==> same_tree(#[trigger] x@[i], y@[i]),
        (Expr::PreparedFunctionCall(n, x, f), Expr::PreparedFunctionCall(m, y, g)) => n@ == m@ && f == g
            && x@.len() == y@.len() && forall|i: int| 0 <= i < x@.len() ==> same_tree(#[trigger] x@[i], y@[i]),
        _ => false,
    }
}

fn push_escaped(out: &mut String, s: &str)
    ensures
        final(out)@ == old(out)@ + escape_text(s@),
{
    let n = s.unicode_len();
    let ghost start = out@;
    let mut k: usize = 0;
    while k < n
        invariant
            n == s@.len(),
            k <= n,
            out@ == start + escape_text_prefix(s@, k as int),
        decreases n - k,
    {
        let c = s.get_char(k);
        proof {
            lemma_escape_prefix_step(s@, k as int);
        }
        if c == '\\' {
            push_text(out, "\\\\");
        } else if c == '"' {
            push_text(out, "\\\"");
        } else if c == '\r' {
            push_text(out, "\\r");
        } else if c == '\n' {
            push_text(out, "\\n");
        } else if c == '\t' {
            push_text(out, "\\t");
        } else {
            push_char(out, c);
        }
        proof {
            reveal_strlit("\\\\");
            reveal_strlit("\\\"");
            reveal_strlit("\\r");
            reveal_strlit("\\n");
            reveal_strlit("\\t");
        }
        assert(out@ =~= start + escape_text_prefix(s@, k + 1));
        k = k + 1;
    }
    proof {
        lemma_escape_prefix_all(s@);
    }
}

/// The escaped text of the first `k` characters.
pub open spec fn escape_text_prefix(s: Seq<char>, k: int) -> Seq<char>
    decreases k,
{
    if k <= 0 {
        Seq::empty()
    } else {
        escape_text_prefix(s, k - 1) + escaped_char(s[k - 1])
    }
}

proof fn lemma_escape_prefix_step(s: Seq<char>, k: int)
    requires
        0 <= k < s.len(),
    ensures
        escape_text_prefix(s, k + 1) == escape_text_prefix(s, k) + escaped_char(s[k]),
{
}

proof fn lemma_escape_prefix_all(s: Seq<char>)
    ensures
        escape_text_prefix(s, s.len() as int) == escape_text(s),
    decreases s.len(),
{
    if s.len() > 0 {
        let t = s.drop_first();
        lemma_escape_prefix_all(t);
        assert forall|k: int| 0 <= k <= t.len() implies escaped_char(s[0]) + escape_text_prefix(t, k) == escape_text_prefix(s, k + 1) by {
            lemma_escape_prefix_shift(s, k);
        }
    }
}

proof fn lemma_escape_prefix_shift(s: Seq<char>, k: int)
    requires
        s.len() > 0,
        0 <= k <= s.len() - 1,
    ensures
        escaped_char(s[0]) + escape_text_prefix(s.drop_first(), k) == escape_text_prefix(s, k + 1),
    decreases k,
{
    if k > 0 {
        lemma_escape_prefix_shift(s, k - 1);
        assert(s.drop_first()[k - 1] == s[k]);
        assert(escaped_char(s[0]) + escape_text_prefix(s.drop_first(), k) =~= escaped_char(s[0]) + escape_text_prefix(s.drop_first(), k - 1) + escaped_char(s[k]));
    } else {
        assert(escape_text_prefix(s, 1) =~= escape_text_prefix(s, 0) + escaped_char(s[0]));
        assert(escaped_char(s[0]) + Seq::<char>::empty() =~= escaped_char(s[0]));
    }
}

/// Writes the canonical text of a tree; see `render`.
pub fn render_expr(e: &Expr) -> (r: String)
    ensures
        r@ == render(*e),
    decreases e, 0int,
{
    let mut out = String::new();
    match e {
        Expr::Str(s) => {
            push_char(&mut out, '"');
            push_escaped(&mut out, s.as_str());
            push_char(&mut out, '"');
        },
        Expr::Boolean(b) => {
            if *b {
                push_text(&mut out, "true");
            } else {
                push_text(&mut out, "false");
            }
            proof {
                reveal_strlit("true");
                reveal_strlit("false");
            }
            assert(out@ =~= render(*e));
        },
        Expr::Num(t) => push_text(&mut out, t.as_str()),
        Expr::Identifier(n) => push_text(&mut out, n.as_str()),
        Expr::Array(items) => {
            push_char(&mut out, '[');
            let t = render_items(items);
            push_text(&mut out, t.as_str());
            push_char(&mut out, ']');
        },
        Expr::FunctionCall(n, args) | Expr::PreparedFunctionCall(n, args, _) => {
            push_text(&mut out, n.as_str());
            push_char(&mut out, '(');
            let t = render_items(args);
            push_text(&mut out, t.as_str());
            push_char(&mut out, ')');
        },
    }
    assert(out@ =~= render(*e));
    out
}

fn render_items(items: &Vec<Expr>) -> (r: String)
    ensures
        r@ == render_list(items@, 0),
    decreases items, 1int,
{
    let n = items.len();
    let mut out = String::new();
    if n == 0 {
        return out;
    }
    let mut i: usize = n - 1;
    let last = render_expr(&items[i]);
    push_text(&mut out, last.as_str());
    assert(out@ =~= render_list(items@, i as int));
    while i > 0
        invariant
            n == items@.len(),
            i < n,
            out@ == render_list(items@, i as int),
        decreases i,
    {
        i = i - 1;
        let mut piece = render_expr(&items[i]);
        push_char(&mut piece, ',');
        push_text(&mut piece, out.as_str());
        out = piece;
        assert(out@ =~= render_list(items@, i as int));
    }
    out
}

} // verus!
