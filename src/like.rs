//! Conversion of SQL `LIKE` patterns into anchored regular expressions.
use vstd::prelude::*;
use crate::strings::{chars_of, push_char, push_text};

verus! {

/// What a wildcard stands for in the regular expression.
pub open spec fn wildcard_regex(c: char) -> Seq<char> {
    if c == '%' {
        seq!['.', '*']
    } else {
        seq!['.', '{', '1', '}']
    }
}

pub open spec fn is_wildcard(c: char) -> bool {
    c == '%' || c == '_'
}

/// One step of the left-to-right scan: given the pending character (the
/// previous one, unless a doubled wildcard consumed it) and the next
/// character, what is emitted and what becomes pending.
pub open spec fn like_step(pending: Option<char>, c: char) -> (Seq<char>, Option<char>) {
    match pending {
        None => if is_wildcard(c) {
            (Seq::empty(), Some(c))
        } else {
            (seq![c], Some(c))
        },
        Some(p) => if is_wildcard(p) {
            if p == c {
                // a doubled wildcard is the literal character
                (seq![c], None)
            } else if is_wildcard(c) {
                (wildcard_regex(p), Some(c))
            } else {
                (wildcard_regex(p) + seq![c], Some(c))
            }
        } else if is_wildcard(c) {
            (Seq::empty(), Some(c))
        } else {
            (seq![c], Some(c))
        },
    }
}

/// The scan over a whole pattern: what was emitted and what is pending.
pub open spec fn like_scan(p: Seq<char>) -> (Seq<char>, Option<char>)
    decreases p.len(),
{
    if p.len() == 0 {
        (Seq::empty(), None)
    } else {
        let prev = like_scan(p.drop_last());
        let step = like_step(prev.1, p.last());
        (prev.0 + step.0, step.1)
    }
}

/// What a wildcard left pending at the end of the pattern stands for.
pub open spec fn like_tail(pending: Option<char>) -> Seq<char> {
    match pending {
        Some(p) => if is_wildcard(p) {
            wildcard_regex(p)
        } else {
            Seq::empty()
        },
        None => Seq::empty(),
    }
}

/// The anchored regular expression for a `LIKE` pattern.
pub open spec fn like_regex(p: Seq<char>) -> Seq<char> {
    seq!['^'] + like_scan(p).0 + like_tail(like_scan(p).1) + seq!['$']
}

fn push_wildcard(result: &mut String, c: char)
    requires
        is_wildcard(c),
    ensures
        final(result)@ == old(result)@ + wildcard_regex(c),
{
    if c == '%' {
        push_text(result, ".*");
        proof {
            reveal_strlit(".*");
        }
        assert(final(result)@ =~= old(result)@ + wildcard_regex(c));
    } else {
        push_text(result, ".{1}");
        proof {
            reveal_strlit(".{1}");
        }
        assert(final(result)@ =~= old(result)@ + wildcard_regex(c));
    }
}

/// Converts a `LIKE` pattern (`%` any sequence, `_` any one character,
/// `%%` and `__` the literal characters) into an anchored regular
/// expression. The pattern's other characters are copied as they are.
pub fn like_pattern_to_regex_pattern(like_pattern: &str) -> (r: String)
    ensures
        r@ == like_regex(like_pattern@),
{
    let cs = chars_of(like_pattern);
    let mut result = String::new();
    push_char(&mut result, '^');
    let mut pending: Option<char> = None;
    let mut i: usize = 0;
    while i < cs.len()
        invariant
            i <= cs@.len(),
            cs@ == like_pattern@,
            result@ == seq!['^'] + like_scan(cs@.subrange(0, i as int)).0,
            pending == like_scan(cs@.subrange(0, i as int)).1,
        decreases cs@.len() - i,
    {
        let c = cs[i];
        proof {
            let p = cs@.subrange(0, i as int + 1);
            assert(p.drop_last() =~= cs@.subrange(0, i as int));
            assert(p.last() == c);
        }
        let ghost before = result@;
        match pending {
            None => {
                if c != '%' && c != '_' {
                    push_char(&mut result, c);
                }
                pending = Some(c);
            },
            Some(p) => {
                if p == '%' || p == '_' {
                    if p == c {
                        push_char(&mut result, c);
                        pending = None;
                    } else {
                        push_wildcard(&mut result, p);
                        if c != '%' && c != '_' {
                            push_char(&mut result, c);
                        }
                        pending = Some(c);
                    }
                } else {
                    if c != '%' && c != '_' {
                        push_char(&mut result, c);
                    }
                    pending = Some(c);
                }
            },
        }
        proof {
            let step = like_step(like_scan(cs@.subrange(0, i as int)).1, c);
            assert(result@ =~= before + step.0);
        }
        i = i + 1;
    }
    assert(cs@.subrange(0, cs@.len() as int) =~= like_pattern@);
    let ghost body = result@;
    match pending {
        Some(p) => {
            if p == '%' || p == '_' {
                push_wildcard(&mut result, p);
            }
        },
        None => {},
    }
    assert(result@ =~= body + like_tail(pending));
    push_char(&mut result, '$');
    assert(result@ =~= like_regex(like_pattern@));
    result
}

} // verus!
