//! What evaluation gives, as far as the contracts determine it: a partial
//! evaluator over literals, identifiers and the built-ins whose results do
//! not depend on the number type (logic, equality, `LIKE`, replacement and
//! date comparisons). Where it cannot say, it answers `Unknown`.
use vstd::prelude::*;
use crate::arity::arity_message;
use crate::dates::{add_years_message, date_text, defaulted, instant, read_date, set_month_message, shifted_month,
    trunc_div, valid_date, DateTime, MAX_YEAR, MIN_YEAR, NANOS_PER_SECOND};
use crate::functions::{date_comparison, key_compiles, key_matches, text_function, text_test, unknown_function_message,
    unknown_identifier_message};
use crate::matching::{like_search_pattern, regex_compiles, regex_matches, search_pattern, true_pattern};
use crate::numbers::int_reading;
use crate::numtext::int_digits;
use crate::syntax::{Builtin, Expr};
use crate::value::{not_a_message, not_final_message, ExprResult, IdentifierValues};

verus! {

broadcast use vstd::seq::axiom_seq_index_decreases, vstd::std_specs::vec::axiom_vec_decreases_to_view;

/// A value as the contracts see it. A number is `Other`: its value is the
/// number type's. An array is `Items`.
pub enum Val {
    Null,
    Text(Seq<char>),
    Bool(bool),
    Date(DateTime),
    Span(i64),
    Other,
    Items,
}

/// What evaluating an expression gives: a value, an error (with its
/// message when the contracts fix it), or `Unknown`.
pub enum Outcome {
    Value(Val),
    Error(Option<Seq<char>>),
    Unknown,
}

pub open spec fn val_of<N>(v: ExprResult<N>) -> Val {
    match v {
        ExprResult::Null => Val::Null,
        ExprResult::Str(s) => Val::Text(s@),
        ExprResult::Boolean(b) => Val::Bool(b),
        ExprResult::Date(d) => Val::Date(d),
        ExprResult::TimeSpan(s) => Val::Span(s),
        ExprResult::Num(_) => Val::Other,
        ExprResult::Array(_) => Val::Items,
    }
}

/// Whether a result is what the outcome says.
pub open spec fn agrees<N>(r: Result<ExprResult<N>, String>, o: Outcome) -> bool {
    match o {
        Outcome::Value(v) => r matches Ok(x) && val_of(x) == v,
        Outcome::Error(Some(m)) => r matches Err(e) && e@ == m,
        Outcome::Error(None) => r is Err,
        Outcome::Unknown => true,
    }
}

/// The text of a value other than `Other`.
pub open spec fn val_text(v: Val) -> Seq<char> {
    match v {
        Val::Text(t) => t,
        Val::Bool(b) => if b { "true"@ } else { "false"@ },
        Val::Date(d) => date_text(d),
        Val::Span(s) => int_digits(s as int),
        _ => Seq::empty(),
    }
}

/// The outcome coerced to text.
pub open spec fn to_text_o(o: Outcome) -> Outcome {
    match o {
        Outcome::Value(Val::Other) => Outcome::Unknown,
        Outcome::Value(Val::Items) => Outcome::Error(Some(not_final_message())),
        Outcome::Value(v) => Outcome::Value(Val::Text(val_text(v))),
        _ => o,
    }
}

/// The outcome coerced to a boolean.
pub open spec fn to_bool_o(o: Outcome) -> Outcome {
    match o {
        Outcome::Value(Val::Bool(b)) => Outcome::Value(Val::Bool(b)),
        Outcome::Value(Val::Text(t)) => Outcome::Value(Val::Bool(regex_matches(true_pattern(), true, t))),
        Outcome::Value(Val::Other) => Outcome::Unknown,
        Outcome::Value(Val::Items) => Outcome::Error(None),
        Outcome::Value(v) => Outcome::Error(Some(not_a_message(val_text(v), "boolean"@))),
        _ => o,
    }
}

/// The outcome coerced to a date-time.
pub open spec fn to_date_o(o: Outcome) -> Outcome {
    match o {
        Outcome::Value(Val::Date(d)) => Outcome::Value(Val::Date(d)),
        Outcome::Value(Val::Other) => Outcome::Unknown,
        Outcome::Value(Val::Items) => Outcome::Error(None),
        Outcome::Value(v) => match read_date(val_text(v)) {
            Some(d) => Outcome::Value(Val::Date(d)),
            None => Outcome::Error(None),
        },
        _ => o,
    }
}

/// What evaluating `e` gives.
pub open spec fn eval(e: Expr, values: IdentifierValues) -> Outcome
    decreases e, 0int,
{
    match e {
        Expr::Str(s) => Outcome::Value(Val::Text(s@)),
        Expr::Boolean(b) => Outcome::Value(Val::Bool(b)),
        Expr::Identifier(n) => match values.value_of(n@) {
            Some(t) => Outcome::Value(Val::Text(t)),
            None => Outcome::Error(Some(unknown_identifier_message(n@))),
        },
        Expr::FunctionCall(n, _) => Outcome::Error(Some(unknown_function_message(n@))),
        Expr::PreparedFunctionCall(_, ps, b) => match arity_message(b, ps@.len()) {
            Some(m) => Outcome::Error(Some(m)),
            None => eval_call(b, ps@, values),
        },
        _ => Outcome::Unknown,
    }
}

/// What a built-in gives on its arguments, once their number is right.
pub open spec fn eval_call(b: Builtin, ps: Seq<Expr>, values: IdentifierValues) -> Outcome
    decreases ps, ps.len() + 20,
{
    if ps.len() == 0 {
        match b {
            Builtin::And => Outcome::Value(Val::Bool(true)),
            Builtin::Or => Outcome::Value(Val::Bool(false)),
            Builtin::FirstNotNull => Outcome::Value(Val::Null),
            Builtin::IsNull => Outcome::Value(Val::Bool(true)),
            _ => Outcome::Unknown,
        }
    } else {
        match b {
            Builtin::And => eval_and(ps, 0, values),
            Builtin::Or => eval_or(ps, 0, values),
            Builtin::FirstNotNull => eval_first(ps, 0, values),
            Builtin::Not => match to_bool_o(eval(ps[0], values)) {
                Outcome::Value(Val::Bool(x)) => Outcome::Value(Val::Bool(!x)),
                o => o,
            },
            Builtin::IsNull => match eval(ps[0], values) {
                Outcome::Value(v) => Outcome::Value(Val::Bool(v == Val::Null)),
                o => o,
            },
            Builtin::Iif => if ps.len() < 3 {
                Outcome::Unknown
            } else {
                match to_bool_o(eval(ps[0], values)) {
                    Outcome::Value(Val::Bool(true)) => eval(ps[1], values),
                    Outcome::Value(Val::Bool(false)) => eval(ps[2], values),
                    o => o,
                }
            },
            Builtin::AreEquals => if ps.len() < 2 {
                Outcome::Unknown
            } else {
                match eval(ps[0], values) {
                    Outcome::Value(l) => match eval(ps[1], values) {
                        Outcome::Value(r) => equal_o(l, r),
                        o => o,
                    },
                    o => o,
                }
            },
            Builtin::ReplaceEquals => eval_replace_start(ps, false, values),
            Builtin::ReplaceLike => eval_replace_start(ps, true, values),
            Builtin::InLike => match to_text_o(eval(ps[0], values)) {
                Outcome::Value(Val::Text(n)) => eval_in_like(ps, n, 1, values),
                o => o,
            },
            Builtin::DateEquals | Builtin::DateNotEquals | Builtin::DateLower | Builtin::DateLowerOrEquals
            | Builtin::DateGreater | Builtin::DateGreaterOrEquals => eval_dates(b, ps, values),
            Builtin::Lower | Builtin::Upper | Builtin::Trim | Builtin::FirstWord | Builtin::FirstSentence
            | Builtin::Capitalize | Builtin::Text | Builtin::Len | Builtin::Exact | Builtin::StartsWith
            | Builtin::EndsWith => eval_texts(b, ps, values),
            Builtin::Find => if ps.len() == 2 { eval_texts(b, ps, values) } else { Outcome::Unknown },
            Builtin::Date | Builtin::DateDiff | Builtin::DateAddMonths | Builtin::DateAddYears => eval_date_fn(b, ps, values),
            _ => Outcome::Unknown,
        }
    }
}

/// The outcome coerced to an integer: `Ok` with it, or the outcome that
/// stands for the failure.
pub open spec fn to_int_r(o: Outcome) -> Result<i64, Outcome> {
    match o {
        Outcome::Value(Val::Text(t)) => match int_reading(t) {
            Some(i) => Ok(i as i64),
            None => Err(Outcome::Error(Some(not_a_message(t, "number"@)))),
        },
        Outcome::Value(Val::Other) => Err(Outcome::Unknown),
        Outcome::Value(Val::Items) => Err(Outcome::Error(None)),
        Outcome::Value(v) => Err(Outcome::Error(Some(not_a_message(val_text(v), "number"@)))),
        _ => Err(o),
    }
}

/// `DateAddMonths` on a date-time; see `add_months`.
pub open spec fn add_months_o(d: DateTime, k: i64) -> Outcome {
    let (y, m) = shifted_month(d.year as int, d.month as int, k as int);
    let target = DateTime { year: y as i32, month: m as u32, ..d };
    if valid_date(y, m, d.day as int) {
        Outcome::Value(Val::Date(target))
    } else if MIN_YEAR <= y <= MAX_YEAR {
        Outcome::Error(Some(set_month_message(m, target)))
    } else {
        Outcome::Error(Some(add_years_message(y - d.year, d)))
    }
}

/// `DateAddYears` on a date-time; see `add_years`.
pub open spec fn add_years_o(d: DateTime, k: i64) -> Outcome {
    if valid_date(d.year + k, d.month as int, d.day as int) {
        Outcome::Value(Val::Date(DateTime { year: (d.year + k) as i32, ..d }))
    } else {
        Outcome::Error(Some(add_years_message(k as int, d)))
    }
}

/// The built-ins on texts, their arguments evaluated in order.
pub open spec fn eval_texts(b: Builtin, ps: Seq<Expr>, values: IdentifierValues) -> Outcome
    decreases ps, ps.len() + 10,
{
    if ps.len() == 0 {
        Outcome::Unknown
    } else {
        match to_text_o(eval(ps[0], values)) {
            Outcome::Value(Val::Text(a)) => if text_function(b, a) is Some && ps.len() == 1 {
                Outcome::Value(Val::Text(text_function(b, a)->Some_0))
            } else if b == Builtin::Len && ps.len() == 1 {
                Outcome::Value(Val::Other)
            } else if ps.len() == 2 {
                match to_text_o(eval(ps[1], values)) {
                    Outcome::Value(Val::Text(c)) => if text_test(b, a, c) is Some {
                        Outcome::Value(Val::Bool(text_test(b, a, c)->Some_0))
                    } else if b == Builtin::Find {
                        if regex_compiles(search_pattern(a), true) { Outcome::Value(Val::Other) } else { Outcome::Error(None) }
                    } else {
                        Outcome::Unknown
                    },
                    o => o,
                }
            } else {
                Outcome::Unknown
            },
            o => o,
        }
    }
}

/// The date built-ins that do not depend on numbers.
pub open spec fn eval_date_fn(b: Builtin, ps: Seq<Expr>, values: IdentifierValues) -> Outcome
    decreases ps, ps.len() + 10,
{
    if ps.len() == 0 {
        Outcome::Unknown
    } else {
        match to_date_o(eval(ps[0], values)) {
            Outcome::Value(Val::Date(d)) => if b == Builtin::Date {
                Outcome::Value(Val::Date(d))
            } else if ps.len() < 2 {
                Outcome::Unknown
            } else if b == Builtin::DateDiff {
                match to_date_o(eval(ps[1], values)) {
                    Outcome::Value(Val::Date(e)) => Outcome::Value(Val::Span(
                        trunc_div(instant(d) - instant(e), NANOS_PER_SECOND as int) as i64)),
                    o => o,
                }
            } else {
                match to_int_r(eval(ps[1], values)) {
                    Ok(k) => if b == Builtin::DateAddMonths {
                        add_months_o(d, k)
                    } else if b == Builtin::DateAddYears {
                        add_years_o(d, k)
                    } else {
                        Outcome::Unknown
                    },
                    Err(o) => o,
                }
            },
            o => o,
        }
    }
}

/// `AreEquals` on two values: `Null` equals nothing; a number or an array
/// equals no text, boolean, date or time span.
pub open spec fn equal_o(l: Val, r: Val) -> Outcome {
    if l == Val::Null || r == Val::Null {
        Outcome::Value(Val::Bool(false))
    } else if (l == Val::Other || l == Val::Items) && (r == Val::Other || r == Val::Items) {
        Outcome::Unknown
    } else {
        Outcome::Value(Val::Bool(l == r))
    }
}

pub open spec fn eval_and(ps: Seq<Expr>, i: int, values: IdentifierValues) -> Outcome
    decreases ps, ps.len() - i,
{
    if i < 0 || i >= ps.len() {
        Outcome::Value(Val::Bool(true))
    } else {
        match to_bool_o(eval(ps[i], values)) {
            Outcome::Value(Val::Bool(true)) => eval_and(ps, i + 1, values),
            o => o,
        }
    }
}

pub open spec fn eval_or(ps: Seq<Expr>, i: int, values: IdentifierValues) -> Outcome
    decreases ps, ps.len() - i,
{
    if i < 0 || i >= ps.len() {
        Outcome::Value(Val::Bool(false))
    } else {
        match to_bool_o(eval(ps[i], values)) {
            Outcome::Value(Val::Bool(false)) => eval_or(ps, i + 1, values),
            o => o,
        }
    }
}

pub open spec fn eval_first(ps: Seq<Expr>, i: int, values: IdentifierValues) -> Outcome
    decreases ps, ps.len() - i,
{
    if i < 0 || i >= ps.len() {
        Outcome::Value(Val::Null)
    } else {
        match eval(ps[i], values) {
            Outcome::Value(Val::Null) => eval_first(ps, i + 1, values),
            o => o,
        }
    }
}

pub open spec fn eval_replace_start(ps: Seq<Expr>, like: bool, values: IdentifierValues) -> Outcome
    decreases ps, ps.len() + 10,
{
    if ps.len() == 0 {
        Outcome::Unknown
    } else {
        match to_text_o(eval(ps[0], values)) {
            Outcome::Value(Val::Text(t)) => eval_replace(ps, t, like, 2, values),
            o => o,
        }
    }
}

/// The replacement from the pair at `i` on: the value after the first key
/// that matches, else the default.
pub open spec fn eval_replace(ps: Seq<Expr>, t: Seq<char>, like: bool, i: int, values: IdentifierValues) -> Outcome
    decreases ps, ps.len() + 2 - i,
{
    if i < 2 || i + 1 >= ps.len() {
        if ps.len() >= 2 {
            eval(ps[1], values)
        } else {
            Outcome::Unknown
        }
    } else {
        match to_text_o(eval(ps[i], values)) {
            Outcome::Value(Val::Text(k)) => if !key_compiles(k, like) {
                Outcome::Error(None)
            } else if key_matches(t, k, like) {
                eval(ps[i + 1], values)
            } else {
                eval_replace(ps, t, like, i + 2, values)
            },
            o => o,
        }
    }
}

/// `InLike` from the pattern at `i` on.
pub open spec fn eval_in_like(ps: Seq<Expr>, n: Seq<char>, i: int, values: IdentifierValues) -> Outcome
    decreases ps, ps.len() - i,
{
    if i < 1 || i >= ps.len() {
        Outcome::Value(Val::Bool(false))
    } else {
        match to_text_o(eval(ps[i], values)) {
            Outcome::Value(Val::Text(p)) => if !regex_compiles(like_search_pattern(p), true) {
                Outcome::Error(None)
            } else if regex_matches(like_search_pattern(p), true, n) {
                Outcome::Value(Val::Bool(true))
            } else {
                eval_in_like(ps, n, i + 1, values)
            },
            o => o,
        }
    }
}

/// The flags of a date comparison from index `i` on (false when absent).
pub open spec fn eval_flags(ps: Seq<Expr>, i: int, values: IdentifierValues) -> Result<Seq<bool>, Outcome>
    decreases ps, 8 - i,
{
    if i < 2 || i >= 8 {
        Ok(Seq::empty())
    } else {
        let f: Result<bool, Outcome> = if i < ps.len() {
            match to_bool_o(eval(ps[i], values)) {
                Outcome::Value(Val::Bool(x)) => Ok(x),
                o => Err(o),
            }
        } else {
            Ok(false)
        };
        match f {
            Ok(x) => match eval_flags(ps, i + 1, values) {
                Ok(rest) => Ok(seq![x] + rest),
                Err(o) => Err(o),
            },
            Err(o) => Err(o),
        }
    }
}

/// A date comparison: the flags first, then the two dates.
pub open spec fn eval_dates(b: Builtin, ps: Seq<Expr>, values: IdentifierValues) -> Outcome
    decreases ps, ps.len() + 10,
{
    if ps.len() < 2 {
        Outcome::Unknown
    } else {
        match eval_flags(ps, 2, values) {
            Err(o) => o,
            Ok(flags) => match to_date_o(eval(ps[0], values)) {
                Outcome::Value(Val::Date(x)) => match to_date_o(eval(ps[1], values)) {
                    Outcome::Value(Val::Date(y)) => Outcome::Value(Val::Bool(
                        date_comparison(b, defaulted(x, flags), defaulted(y, flags)))),
                    o => o,
                },
                o => o,
            },
        }
    }
}


/// Trimming twice is trimming once, whatever the argument: `Trim(Trim(x))`
/// evaluates as `Trim(x)` does.
pub proof fn lemma_trim_twice(outer: Expr, inner: Expr, x: Expr, values: IdentifierValues)
    requires
        outer matches Expr::PreparedFunctionCall(_, v, Builtin::Trim) && v@ == seq![inner],
        inner matches Expr::PreparedFunctionCall(_, w, Builtin::Trim) && w@ == seq![x],
    ensures
        eval(outer, values) == eval(inner, values),
{
    let o = to_text_o(eval(x, values));
    assert(eval(inner, values) == eval_call(Builtin::Trim, seq![x], values));
    assert(eval(outer, values) == eval_call(Builtin::Trim, seq![inner], values));
    if let Outcome::Value(Val::Text(a)) = o {
        crate::text::lemma_trim_idempotent(a);
    }
}

} // verus!
