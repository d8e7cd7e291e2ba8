//! The evaluator and the built-in functions. Functions receive their
//! arguments unevaluated and evaluate only those they need, so `And`, `Or`,
//! `Iif`, `FirstNotNull`, `ReplaceEquals` and `ReplaceLike` stop early.
use vstd::prelude::*;
use crate::arity::{arity_message, check_arity};
use crate::dates::{add_months, add_years, now_utc, seconds_between, seconds_of_day, shift_seconds,
    start_of_day, with_defaults, format_date, date_before, defaulted, read_date, utc_reading, DateTime};
use crate::dotnet::dotnet_format_to_strptime_format;
use crate::matching::{make_case_insensitive_equals_regex, make_case_insensitive_like_regex,
    make_case_insensitive_search_regex, matcher_find_at, matcher_is_match, matcher_replace_all,
    regex_find_from, regex_matches, regex_compiles, regex_replaced_all, like_search_pattern, equals_pattern, search_pattern};
use crate::numbers::{group_fixed_text, grouped_fixed};
use crate::strings::push_text;
use crate::syntax::{Builtin, Expr};
use crate::text;
use crate::value::{result_to_string, results_are_equals, value_to_bool, value_to_date, value_to_int,
    value_to_num, plain_text, ExprResult, IdentifierValues, Number};
use crate::zones::get_utc_offset;
use crate::semantics::{eval_texts, eval_date_fn, to_int_r, agrees, eval, eval_call, eval_and, eval_or, eval_first, eval_replace, eval_replace_start, eval_in_like, eval_flags, eval_dates, to_bool_o, to_date_o, to_text_o, val_of, val_text, Outcome, Val};
use crate::numbers::int_reading;
use vstd::utf8::encode_utf8;

verus! {

broadcast use vstd::std_specs::vec::axiom_vec_index_decreases;

/// Whether a failed result is the error that the outcome names.
pub open spec fn agrees_err<T>(r: Result<T, String>, o: Outcome) -> bool {
    match o {
        Outcome::Error(Some(m)) => r matches Err(e) && e@ == m,
        Outcome::Error(None) => r is Err,
        _ => true,
    }
}

/// The value of a string or boolean literal.
pub open spec fn literal_of<N>(e: Expr) -> Option<ExprResult<N>> {
    match e {
        Expr::Str(s) => Some(ExprResult::Str(s)),
        Expr::Boolean(b) => Some(ExprResult::Boolean(b)),
        _ => None,
    }
}

pub open spec fn unknown_identifier_message(name: Seq<char>) -> Seq<char> {
    "Unable to find value for identifier named '"@ + name + "'"@
}

pub open spec fn unknown_function_message(name: Seq<char>) -> Seq<char> {
    "Unable to find the function named '"@ + name + "'"@
}

fn quoted_message(head: &str, name: &str) -> (r: String)
    ensures
        r@ == head@ + name@ + "'"@,
{
    let mut m = String::new();
    push_text(&mut m, head);
    push_text(&mut m, name);
    push_text(&mut m, "'");
    m
}

/// Evaluates an expression against the identifier values.
///
/// Literals give their values (a number literal as the number type reads
/// it); an identifier gives its value as text; an unbound call fails; a
/// bound call gives what its built-in computes.
pub fn exec_expr<N: Number>(e: &Expr, values: &IdentifierValues) -> (r: Result<ExprResult<N>, String>)
    ensures
        r matches Ok(v) ==> v.wf(),
        literal_of::<N>(*e) matches Some(v) ==> r == Ok::<ExprResult<N>, String>(v),
        *e matches Expr::Identifier(name) ==> match values.value_of(name@) {
            Some(t) => r matches Ok(ExprResult::Str(s)) && s@ == t,
            None => r matches Err(m) && m@ == unknown_identifier_message(name@),
        },
        *e matches Expr::FunctionCall(name, _) ==> (r matches Err(m) && m@ == unknown_function_message(name@)),
        *e matches Expr::PreparedFunctionCall(_, params, b) ==> (arity_message(b, params@.len()) matches Some(m)
            ==> (r matches Err(x) && x@ == m)),
        *e matches Expr::PreparedFunctionCall(_, params, b) ==> call_shortcuts::<N>(b, params@, r),
        *e matches Expr::PreparedFunctionCall(_, params, b) ==> literal_calls::<N>(b, params@, r),
        agrees(r, eval(*e, *values)),
        *e matches Expr::PreparedFunctionCall(_, params, Builtin::Fixed) && fixed_succeeds(params@, *values)
            ==> r matches Ok(ExprResult::Str(_)),
    decreases e, 0int,
{
    match e {
        Expr::Str(s) => Ok(ExprResult::Str(s.clone())),
        Expr::Boolean(b) => Ok(ExprResult::Boolean(*b)),
        Expr::Num(t) => match N::parse_text(t.as_str()) {
            Some(n) => Ok(ExprResult::Num(n)),
            None => {
                let mut m = String::new();
                push_text(&mut m, "'");
                push_text(&mut m, t.as_str());
                push_text(&mut m, "' is not a number");
                Err(m)
            },
        },
        Expr::Array(items) => {
            let out = exec_all(items, values)?;
            Ok(ExprResult::Array(out))
        },
        Expr::Identifier(name) => match values.get(name.as_str()) {
            Some(s) => Ok(ExprResult::Str(s)),
            None => Err(quoted_message("Unable to find value for identifier named '", name.as_str())),
        },
        Expr::FunctionCall(name, _) => Err(quoted_message("Unable to find the function named '", name.as_str())),
        Expr::PreparedFunctionCall(_, params, b) => call_builtin(*b, params, values),
    }
}

fn exec_all<N: Number>(items: &Vec<Expr>, values: &IdentifierValues) -> (r: Result<Vec<ExprResult<N>>, String>)
    ensures
        r matches Ok(out) ==> out@.len() == items@.len() && forall|j: int| 0 <= j < out@.len() ==> (#[trigger] out@[j]).wf(),
    decreases items, 0int,
{
    let mut out: Vec<ExprResult<N>> = Vec::new();
    let mut i: usize = 0;
    while i < items.len()
        invariant
            i <= items@.len(),
            out@.len() == i,
            forall|j: int| 0 <= j < i ==> (#[trigger] out@[j]).wf(),
        decreases items@.len() - i,
    {
        let v = exec_expr(&items[i], values)?;
        out.push(v);
        i = i + 1;
    }
    Ok(out)
}

/// What some built-ins promise whatever their other arguments do: `And`
/// with a first argument known false is false, `Or` with a first argument
/// known true is true (see `known_bool`), `Iif` with a known condition gives its chosen branch
/// when that is a literal, `FirstNotNull` gives its first argument when
/// that is a literal and `Null` when it has none, and `AreEquals` with an
/// argument that gives `Null` is false.
pub open spec fn call_shortcuts<N>(b: Builtin, params: Seq<Expr>, r: Result<ExprResult<N>, String>) -> bool {
    &&& (b == Builtin::And && params.len() >= 1 && known_bool(params[0]) == Some(false)) ==> r == Ok::<ExprResult<N>, String>(ExprResult::Boolean(false))
    &&& (b == Builtin::Or && params.len() >= 1 && known_bool(params[0]) == Some(true)) ==> r == Ok::<ExprResult<N>, String>(ExprResult::Boolean(true))
    &&& (b == Builtin::Iif && params.len() == 3 && known_bool(params[0]) == Some(true) && literal_of::<N>(params[1]) is Some)
        ==> r == Ok::<ExprResult<N>, String>(literal_of::<N>(params[1])->Some_0)
    &&& (b == Builtin::Iif && params.len() == 3 && known_bool(params[0]) == Some(false) && literal_of::<N>(params[2]) is Some)
        ==> r == Ok::<ExprResult<N>, String>(literal_of::<N>(params[2])->Some_0)
    &&& (b == Builtin::FirstNotNull && params.len() >= 1 && literal_of::<N>(params[0]) is Some)
        ==> r == Ok::<ExprResult<N>, String>(literal_of::<N>(params[0])->Some_0)
    &&& (b == Builtin::FirstNotNull && params.len() == 0) ==> r == Ok::<ExprResult<N>, String>(ExprResult::Null)
    &&& (b == Builtin::AreEquals && params.len() == 2 && (is_null_call(params[0]) || is_null_call(params[1])) && r is Ok)
        ==> r == Ok::<ExprResult<N>, String>(ExprResult::Boolean(false))
}

/// A call that gives `Null`: `FirstNotNull` with no arguments, or `Split`
/// of literals with an index past the last piece.
pub open spec fn is_null_call(e: Expr) -> bool {
    ||| (e matches Expr::PreparedFunctionCall(_, ps, Builtin::FirstNotNull) && ps@.len() == 0)
    ||| (e matches Expr::PreparedFunctionCall(_, ps, Builtin::Split) && ps@.len() == 3 && ps@[0] is Str && ps@[1] is Str
        && literal_int(ps@[2]) is Some && split_index(literal_int(ps@[2])->Some_0)
            >= text::split_pieces(literal_text(ps@[0])->Some_0, literal_text(ps@[1])->Some_0).len())
}

/// The text of a string literal.
pub open spec fn literal_text(e: Expr) -> Option<Seq<char>> {
    match e {
        Expr::Str(s) => Some(s@),
        _ => None,
    }
}

/// The truth value of a boolean literal, or of a call whose value the
/// contracts pin down: a text comparison of two string literals, `Not` of
/// a boolean literal, `IsNull` with no argument.
pub open spec fn known_bool(e: Expr) -> Option<bool> {
    match e {
        Expr::Boolean(b) => Some(b),
        Expr::PreparedFunctionCall(_, ps, b) => {
            let p = ps@;
            if p.len() == 2 && p[0] is Str && p[1] is Str
                && text_test(b, literal_text(p[0])->Some_0, literal_text(p[1])->Some_0) is Some {
                text_test(b, literal_text(p[0])->Some_0, literal_text(p[1])->Some_0)
            } else if b == Builtin::Not && p.len() == 1 && p[0] is Boolean {
                Some(!p[0]->Boolean_0)
            } else if b == Builtin::IsNull && p.len() == 0 {
                Some(true)
            } else {
                None
            }
        },
        _ => None,
    }
}

/// The integer that a string literal spells, if it spells one.
pub open spec fn literal_int(e: Expr) -> Option<int> {
    match e {
        Expr::Str(s) => int_reading(s@),
        _ => None,
    }
}

/// The piece of a split that `Split` picks: a negative index counts as 0.
pub open spec fn split_index(k: int) -> int {
    if k < 0 { 0 } else { k }
}

/// What a built-in that takes one text makes of it.
pub open spec fn text_function(b: Builtin, s: Seq<char>) -> Option<Seq<char>> {
    match b {
        Builtin::Lower => Some(text::lower_of(s)),
        Builtin::Upper => Some(text::upper_of(s)),
        Builtin::Trim => Some(text::trimmed(s)),
        Builtin::FirstWord => Some(text::prefix_before(s, |c: char| text::is_word_end(c))),
        Builtin::FirstSentence => Some(text::prefix_before(s, |c: char| text::is_sentence_end(c))),
        Builtin::Capitalize => Some(text::capitalized(s)),
        Builtin::Text => Some(s),
        _ => None,
    }
}

/// What a built-in that compares two texts says of them.
pub open spec fn text_test(b: Builtin, a: Seq<char>, c: Seq<char>) -> Option<bool> {
    match b {
        Builtin::AreEquals => Some(a == c),
        Builtin::Exact => Some(a == c),
        Builtin::StartsWith => Some(text::starts_with_ci(a, c)),
        Builtin::EndsWith => Some(text::ends_with_ci(a, c)),
        _ => None,
    }
}

pub open spec fn all_texts(params: Seq<Expr>) -> bool {
    forall|i: int| 0 <= i < params.len() ==> (#[trigger] params[i]) is Str
}

pub open spec fn all_booleans(params: Seq<Expr>) -> bool {
    forall|i: int| 0 <= i < params.len() ==> (#[trigger] params[i]) is Boolean
}

/// The texts of string literals, one after the other.
pub open spec fn joined_texts(params: Seq<Expr>) -> Seq<char>
    decreases params.len(),
{
    if params.len() == 0 {
        Seq::empty()
    } else {
        joined_texts(params.drop_last()) + literal_text(params.last())->Some_0
    }
}

/// What the built-ins give when their arguments are literals: the text
/// functions, the text comparisons, `Concat`, `In`, `Not`, `Xor`, `And`,
/// `Or` and `IsNull`; and, when their patterns compile, `Like`, `InLike`,
/// `Substitute`, `ReplaceEquals` and `ReplaceLike`.
pub open spec fn literal_calls<N>(b: Builtin, params: Seq<Expr>, r: Result<ExprResult<N>, String>) -> bool {
    &&& (params.len() == 1 && params[0] is Str && text_function(b, literal_text(params[0])->Some_0) is Some)
        ==> (r matches Ok(ExprResult::Str(x)) && x@ == text_function(b, literal_text(params[0])->Some_0)->Some_0)
    &&& (params.len() == 2 && params[0] is Str && params[1] is Str
        && text_test(b, literal_text(params[0])->Some_0, literal_text(params[1])->Some_0) is Some)
        ==> r == Ok::<ExprResult<N>, String>(ExprResult::Boolean(
            text_test(b, literal_text(params[0])->Some_0, literal_text(params[1])->Some_0)->Some_0))
    &&& (b == Builtin::IsLike && params.len() == 2 && params[0] is Str && params[1] is Str
        && regex_compiles(like_search_pattern(literal_text(params[1])->Some_0), true))
        ==> r == Ok::<ExprResult<N>, String>(ExprResult::Boolean(
            regex_matches(like_search_pattern(literal_text(params[1])->Some_0), true, literal_text(params[0])->Some_0)))
    &&& (b == Builtin::Concat && all_texts(params)) ==> (r matches Ok(ExprResult::Str(x)) && x@ == joined_texts(params))
    &&& (b == Builtin::Not && params.len() == 1 && params[0] is Boolean)
        ==> r == Ok::<ExprResult<N>, String>(ExprResult::Boolean(!params[0]->Boolean_0))
    &&& (b == Builtin::Xor && params.len() == 2 && params[0] is Boolean && params[1] is Boolean)
        ==> r == Ok::<ExprResult<N>, String>(ExprResult::Boolean(params[0]->Boolean_0 != params[1]->Boolean_0))
    &&& (b == Builtin::And && all_booleans(params))
        ==> r == Ok::<ExprResult<N>, String>(ExprResult::Boolean(forall|i: int| 0 <= i < params.len() ==> #[trigger] params[i] == Expr::Boolean(true)))
    &&& (b == Builtin::Or && all_booleans(params))
        ==> r == Ok::<ExprResult<N>, String>(ExprResult::Boolean(exists|i: int| 0 <= i < params.len() && #[trigger] params[i] == Expr::Boolean(true)))
    &&& ((b == Builtin::ReplaceEquals || b == Builtin::ReplaceLike) && params.len() >= 4 && params.len() % 2 == 0
        && all_texts(params) && keys_compile(params, b == Builtin::ReplaceLike))
        ==> r == Ok::<ExprResult<N>, String>(literal_of::<N>(
            params[replacement_choice(literal_text(params[0])->Some_0, params, b == Builtin::ReplaceLike, 2)])->Some_0)
    &&& (b == Builtin::In && params.len() >= 2 && all_texts(params)) ==> r == Ok::<ExprResult<N>, String>(ExprResult::Boolean(
            exists|i: int| 1 <= i < params.len() && literal_text(#[trigger] params[i]) == literal_text(params[0])))
    &&& (b == Builtin::InLike && params.len() >= 2 && all_texts(params) && like_patterns_compile(params)) ==> r == Ok::<ExprResult<N>, String>(ExprResult::Boolean(
            exists|i: int| 1 <= i < params.len() && regex_matches(like_search_pattern(literal_text(#[trigger] params[i])->Some_0), true,
                literal_text(params[0])->Some_0)))
    &&& (b == Builtin::Substitute && params.len() == 3 && all_texts(params)
        && regex_compiles(search_pattern(literal_text(params[1])->Some_0), true)) ==> (r matches Ok(ExprResult::Str(x))
            && x@ == regex_replaced_all(search_pattern(literal_text(params[1])->Some_0), true, literal_text(params[0])->Some_0,
                literal_text(params[2])->Some_0))
    &&& (b == Builtin::DateEquals || b == Builtin::DateNotEquals || b == Builtin::DateLower || b == Builtin::DateLowerOrEquals
        || b == Builtin::DateGreater || b == Builtin::DateGreaterOrEquals) ==> literal_dates_compared::<N>(b, params, r)
    &&& (b == Builtin::Left && params.len() == 2 && params[0] is Str && literal_int(params[1]) is Some) ==> ({
            let s = literal_text(params[0])->Some_0;
            r matches Ok(ExprResult::Str(x)) && x@ == s.subrange(0, text::clamp_count(literal_int(params[1])->Some_0, s.len() as int))
        })
    &&& (b == Builtin::Right && params.len() == 2 && params[0] is Str && literal_int(params[1]) is Some) ==> ({
            let s = literal_text(params[0])->Some_0;
            r matches Ok(ExprResult::Str(x))
                && x@ == s.subrange(s.len() - text::clamp_count(literal_int(params[1])->Some_0, s.len() as int), s.len() as int)
        })
    &&& (b == Builtin::Mid && params.len() == 3 && params[0] is Str && literal_int(params[1]) is Some && literal_int(params[2]) is Some) ==> ({
            let s = literal_text(params[0])->Some_0;
            let p = text::mid_start(literal_int(params[1])->Some_0, s.len() as int);
            r matches Ok(ExprResult::Str(x)) && x@ == s.subrange(p, p + text::clamp_count(literal_int(params[2])->Some_0, s.len() - p))
        })
    &&& (b == Builtin::Split && params.len() == 3 && params[0] is Str && params[1] is Str && literal_int(params[2]) is Some) ==> ({
            let pieces = text::split_pieces(literal_text(params[0])->Some_0, literal_text(params[1])->Some_0);
            let i = split_index(literal_int(params[2])->Some_0);
            if i < pieces.len() {
                r matches Ok(ExprResult::Str(x)) && x@ == pieces[i]
            } else {
                r == Ok::<ExprResult<N>, String>(ExprResult::Null)
            }
        })
    &&& (b == Builtin::IsNull && params.len() == 0) ==> r == Ok::<ExprResult<N>, String>(ExprResult::Boolean(true))
    &&& (b == Builtin::IsNull && params.len() == 1 && literal_of::<N>(params[0]) is Some)
        ==> r == Ok::<ExprResult<N>, String>(ExprResult::Boolean(false))
}

fn exec_to_string<N: Number>(e: &Expr, values: &IdentifierValues) -> (r: Result<String, String>)
    ensures
        agrees_err(r, to_text_o(eval(*e, *values))),
        to_text_o(eval(*e, *values)) matches Outcome::Value(Val::Text(t)) ==> (r matches Ok(s) && s@ == t),
        *e matches Expr::Str(s) ==> (r matches Ok(t) && t@ == s@),
    decreases e, 1int,
{
    let v = exec_expr::<N>(e, values)?;
    result_to_string(&v)
}

fn exec_to_bool<N: Number>(e: &Expr, values: &IdentifierValues) -> (r: Result<bool, String>)
    ensures
        agrees_err(r, to_bool_o(eval(*e, *values))),
        to_bool_o(eval(*e, *values)) matches Outcome::Value(Val::Bool(x)) ==> r == Ok::<bool, String>(x),
        *e matches Expr::Boolean(b) ==> r == Ok::<bool, String>(b),
        known_bool(*e) is Some ==> r == Ok::<bool, String>(known_bool(*e)->Some_0),
    decreases e, 1int,
{
    let v = exec_expr::<N>(e, values)?;
    value_to_bool(&v)
}

fn exec_to_int<N: Number>(e: &Expr, values: &IdentifierValues) -> (r: Result<i64, String>)
    ensures
        match to_int_r(eval(*e, *values)) {
            Ok(i) => r == Ok::<i64, String>(i),
            Err(o) => agrees_err(r, o),
        },
        literal_int(*e) is Some ==> r == Ok::<i64, String>(literal_int(*e)->Some_0 as i64),
    decreases e, 1int,
{
    let v = exec_expr::<N>(e, values)?;
    value_to_int(&v)
}

fn exec_to_num<N: Number>(e: &Expr, values: &IdentifierValues, separator: Option<char>) -> (r: Result<N, String>)
    ensures
        eval(*e, *values) == Outcome::Value(Val::Other) ==> r is Ok,
        agrees_err(r, eval(*e, *values)),
    decreases e, 1int,
{
    let v = exec_expr::<N>(e, values)?;
    value_to_num(&v, separator)
}

fn exec_to_date<N: Number>(e: &Expr, values: &IdentifierValues) -> (r: Result<DateTime, String>)
    ensures
        agrees_err(r, to_date_o(eval(*e, *values))),
        to_date_o(eval(*e, *values)) matches Outcome::Value(Val::Date(x)) ==> r == Ok::<DateTime, String>(x),
        r matches Ok(d) ==> d.wf(),
        (*e is Str && read_date(literal_text(*e)->Some_0) is Some) ==> r == Ok::<DateTime, String>(read_date(literal_text(*e)->Some_0)->Some_0),
    decreases e, 1int,
{
    let v = exec_expr::<N>(e, values)?;
    let r = value_to_date(&v);
    proof {
        if !(v is Date) && plain_text(v) is Some {
            let t = plain_text(v)->Some_0;
            if r is Ok {
                let d = r->Ok_0;
                assert(utc_reading(t) == Some(d.key()));
                assert(read_date(t) == Some(d));
            }
            if read_date(t) is Some {
                let k = utc_reading(t)->Some_0;
                let d = r->Ok_0;
                assert(d.key()[0] == k[0] && d.key()[6] == k[6]);
            }
        }
        if *e is Str && read_date(literal_text(*e)->Some_0) is Some {
            let k = utc_reading(literal_text(*e)->Some_0)->Some_0;
            assert(plain_text(v) == Some(literal_text(*e)->Some_0));
            assert(r matches Ok(d) && d.key() == k);
            assert(k.len() == 7);
            let d = r->Ok_0;
            assert(d.key()[0] == k[0] && d.key()[6] == k[6]);
        }
    }
    r
}

fn boolean<N>(b: bool) -> (r: Result<ExprResult<N>, String>)
    ensures
        r == Ok::<ExprResult<N>, String>(ExprResult::Boolean(b)),
{
    Ok(ExprResult::Boolean(b))
}

fn text_result<N>(s: String) -> (r: Result<ExprResult<N>, String>)
    ensures
        r == Ok::<ExprResult<N>, String>(ExprResult::Str(s)),
{
    Ok(ExprResult::Str(s))
}

/// Calls a built-in on its unevaluated arguments, after checking how many
/// there are.
fn call_builtin<N: Number>(b: Builtin, params: &Vec<Expr>, values: &IdentifierValues) -> (r: Result<ExprResult<N>, String>)
    ensures
        r matches Ok(v) ==> v.wf(),
        arity_message(b, params@.len()) matches Some(m) ==> (r matches Err(x) && x@ == m),
        call_shortcuts::<N>(b, params@, r),
        literal_calls::<N>(b, params@, r),
        arity_message(b, params@.len()) is None ==> agrees(r, eval_call(b, params@, *values)),
        b == Builtin::Fixed && fixed_succeeds(params@, *values) ==> r matches Ok(ExprResult::Str(_)),
    decreases params, 1int,
{
    check_arity(b, params.len())?;
    proof {
        if !(b == Builtin::Lower || b == Builtin::Upper || b == Builtin::Trim || b == Builtin::FirstWord
            || b == Builtin::FirstSentence || b == Builtin::Capitalize || b == Builtin::Text || b == Builtin::Len
            || b == Builtin::Exact || b == Builtin::StartsWith || b == Builtin::EndsWith || b == Builtin::Find
            || b == Builtin::Date || b == Builtin::DateDiff || b == Builtin::DateAddMonths || b == Builtin::DateAddYears)
            && !(b == Builtin::And || b == Builtin::Or || b == Builtin::FirstNotNull || b == Builtin::Not || b == Builtin::IsNull
            || b == Builtin::Iif || b == Builtin::AreEquals || b == Builtin::ReplaceEquals || b == Builtin::ReplaceLike
            || b == Builtin::InLike || b == Builtin::DateEquals || b == Builtin::DateNotEquals || b == Builtin::DateLower
            || b == Builtin::DateLowerOrEquals || b == Builtin::DateGreater || b == Builtin::DateGreaterOrEquals) {
            assert(eval_call(b, params@, *values) is Unknown);
        }
    }
    match b {
        Builtin::IsNull => {
            if params.len() == 0 {
                boolean(true)
            } else {
                let v = exec_expr::<N>(&params[0], values)?;
                boolean(matches!(v, ExprResult::Null))
            }
        },
        Builtin::AreEquals => {
            let left = exec_expr::<N>(&params[0], values)?;
            let right = exec_expr::<N>(&params[1], values)?;
            proof {
                if is_null_call(params@[0]) {
                    assert(left is Null);
                }
                if is_null_call(params@[1]) {
                    assert(right is Null);
                }
            }
            boolean(results_are_equals(&left, &right))
        },
        Builtin::In => f_in(params, values),
        Builtin::InLike => f_in_like::<N>(params, values),
        Builtin::IsLike => {
            let t = exec_to_string::<N>(&params[0], values)?;
            let p = exec_to_string::<N>(&params[1], values)?;
            let m = make_case_insensitive_like_regex(p.as_str())?;
            boolean(matcher_is_match(&m, t.as_str()))
        },
        Builtin::FirstNotNull => f_first_not_null(params, values),
        Builtin::Concat => f_concat::<N>(params, values),
        Builtin::And => f_and::<N>(params, values),
        Builtin::Or => f_or::<N>(params, values),
        Builtin::Not => {
            let v = exec_to_bool::<N>(&params[0], values)?;
            boolean(!v)
        },
        Builtin::Xor => {
            let a = exec_to_bool::<N>(&params[0], values)?;
            let c = exec_to_bool::<N>(&params[1], values)?;
            boolean(a != c)
        },
        Builtin::Iif => {
            let test = exec_to_bool::<N>(&params[0], values)?;
            if test {
                exec_expr(&params[1], values)
            } else {
                exec_expr(&params[2], values)
            }
        },
        Builtin::Find => f_find(params, values),
        Builtin::Exact | Builtin::Len | Builtin::Lower | Builtin::Upper | Builtin::Trim | Builtin::FirstWord
        | Builtin::FirstSentence | Builtin::Capitalize | Builtin::Text | Builtin::StartsWith
        | Builtin::EndsWith => f_text(b, params, values),
        Builtin::Date | Builtin::DateAddMonths | Builtin::DateAddYears => f_date_fn(b, params, values),
        Builtin::Substitute => {
            let within = exec_to_string::<N>(&params[0], values)?;
            let find = exec_to_string::<N>(&params[1], values)?;
            let rep = exec_to_string::<N>(&params[2], values)?;
            let m = make_case_insensitive_search_regex(find.as_str())?;
            text_result(matcher_replace_all(&m, within.as_str(), rep.as_str()))
        },
        Builtin::Fixed => f_fixed(params, values),
        Builtin::Left => {
            let s = exec_to_string::<N>(&params[0], values)?;
            let k = exec_to_int::<N>(&params[1], values)?;
            text_result(text::left(s.as_str(), k))
        },
        Builtin::Right => {
            let s = exec_to_string::<N>(&params[0], values)?;
            let k = exec_to_int::<N>(&params[1], values)?;
            text_result(text::right(s.as_str(), k))
        },
        Builtin::Mid => {
            let s = exec_to_string::<N>(&params[0], values)?;
            let p = exec_to_int::<N>(&params[1], values)?;
            let k = exec_to_int::<N>(&params[2], values)?;
            text_result(text::mid(s.as_str(), p, k))
        },
        Builtin::Split => f_split(params, values),
        Builtin::NumberValue => {
            let separator = if params.len() == 2 {
                let t = exec_to_string::<N>(&params[1], values)?;
                if t.as_str().unicode_len() > 0 {
                    Some(t.as_str().get_char(0))
                } else {
                    None
                }
            } else {
                None
            };
            let n = exec_to_num::<N>(&params[0], values, separator)?;
            Ok(ExprResult::Num(n))
        },
        Builtin::ReplaceEquals => f_replace(params, values, false),
        Builtin::ReplaceLike => f_replace(params, values, true),
        Builtin::Abs => {
            let n = exec_to_num::<N>(&params[0], values, None)?;
            Ok(ExprResult::Num(n.absolute()))
        },
        Builtin::Product => f_product(params, values),
        Builtin::Sum => f_sum(params, values),
        Builtin::Divide | Builtin::Subtract | Builtin::Mod | Builtin::Round => f_arithmetic(b, params, values),
        Builtin::GreaterThan | Builtin::LowerThan | Builtin::GreaterThanOrEqual | Builtin::LowerThanOrEqual => {
            let x = exec_to_num::<N>(&params[0], values, None)?;
            let y = exec_to_num::<N>(&params[1], values, None)?;
            boolean(match b {
                Builtin::GreaterThan => y.less_than(&x),
                Builtin::LowerThan => x.less_than(&y),
                Builtin::GreaterThanOrEqual => y.less_or_equal(&x),
                _ => x.less_or_equal(&y),
            })
        },
        Builtin::Now => Ok(ExprResult::Date(now_utc())),
        Builtin::Today => Ok(ExprResult::Date(start_of_day(&now_utc()))),
        Builtin::Time => Ok(ExprResult::TimeSpan(seconds_of_day(&now_utc()))),
        Builtin::NowSpecificTimeZone => {
            let now = now_utc();
            if params.len() == 0 {
                Ok(ExprResult::Date(now))
            } else {
                let zone = exec_to_string::<N>(&params[0], values)?;
                let offset = get_utc_offset(zone.as_str())?;
                Ok(ExprResult::Date(shift_seconds(&now, offset as i64)?))
            }
        },
        Builtin::Year => {
            let d = exec_to_date::<N>(&params[0], values)?;
            Ok(ExprResult::Num(N::from_int(d.year as i64)))
        },
        Builtin::Month => {
            let d = exec_to_date::<N>(&params[0], values)?;
            Ok(ExprResult::Num(N::from_int(d.month as i64)))
        },
        Builtin::Day => {
            let d = exec_to_date::<N>(&params[0], values)?;
            Ok(ExprResult::Num(N::from_int(d.day as i64)))
        },
        Builtin::DateDiff | Builtin::DateDiffHours | Builtin::DateDiffDays | Builtin::DateDiffMonths => f_date_diff(b, params, values),
        Builtin::DateEquals | Builtin::DateNotEquals | Builtin::DateLower | Builtin::DateLowerOrEquals
        | Builtin::DateGreater | Builtin::DateGreaterOrEquals => f_date_compare(b, params, values),
        Builtin::DateAddHours => f_date_add_seconds(params, values, 3600),
        Builtin::DateAddDays => f_date_add_seconds(params, values, 86400),
        Builtin::LocalDate => {
            let d = exec_to_date::<N>(&params[0], values)?;
            let zone = if params.len() == 2 {
                exec_to_string::<N>(&params[1], values)?
            } else {
                String::from_str("Romance Standard Time")
            };
            let offset = get_utc_offset(zone.as_str())?;
            Ok(ExprResult::Date(shift_seconds(&d, offset as i64)?))
        },
        Builtin::DateFormat => {
            let d = exec_to_date::<N>(&params[0], values)?;
            let format = if params.len() == 2 {
                exec_to_string::<N>(&params[1], values)?
            } else {
                String::from_str("yyyy-MM-dd HH:mm:ss.fff")
            };
            let f = dotnet_format_to_strptime_format(format.as_str());
            match format_date(&d, f.as_str()) {
                Some(t) => text_result(t),
                None => Err(quoted_message("Unable to format a date with '", format.as_str())),
            }
        },
    }
}

/// The built-ins on texts.
fn f_text<N: Number>(b: Builtin, params: &Vec<Expr>, values: &IdentifierValues) -> (r: Result<ExprResult<N>, String>)
    requires
        arity_message(b, params@.len()) is None,
        b == Builtin::Exact || b == Builtin::Len || b == Builtin::Lower || b == Builtin::Upper || b == Builtin::Trim
            || b == Builtin::FirstWord || b == Builtin::FirstSentence || b == Builtin::Capitalize || b == Builtin::Text
            || b == Builtin::StartsWith || b == Builtin::EndsWith,
    ensures
        r matches Ok(v) ==> v.wf(),
        agrees(r, eval_texts(b, params@, *values)),
        literal_calls::<N>(b, params@, r),
    decreases params, 0int,
{
    if b == Builtin::Len {
        let s = exec_to_string::<N>(&params[0], values)?;
        return Ok(ExprResult::Num(N::from_int(s.as_str().unicode_len() as i64)));
    }
    let a = exec_to_string::<N>(&params[0], values)?;
    match b {
        Builtin::Lower => text_result(text::lowercase(a.as_str())),
        Builtin::Upper => text_result(text::uppercase(a.as_str())),
        Builtin::Trim => text_result(text::trim(a.as_str())),
        Builtin::FirstWord => text_result(text::first_word(a.as_str())),
        Builtin::FirstSentence => text_result(text::first_sentence(a.as_str())),
        Builtin::Capitalize => text_result(text::capitalize(a.as_str())),
        Builtin::Text => text_result(a),
        _ => {
            let c = exec_to_string::<N>(&params[1], values)?;
            boolean(match b {
                Builtin::Exact => crate::strings::text_eq(a.as_str(), c.as_str()),
                Builtin::StartsWith => text::text_starts_with(a.as_str(), c.as_str()),
                _ => text::text_ends_with(a.as_str(), c.as_str()),
            })
        },
    }
}

/// `Date`, `DateAddMonths` and `DateAddYears`.
fn f_date_fn<N: Number>(b: Builtin, params: &Vec<Expr>, values: &IdentifierValues) -> (r: Result<ExprResult<N>, String>)
    requires
        arity_message(b, params@.len()) is None,
        b == Builtin::Date || b == Builtin::DateAddMonths || b == Builtin::DateAddYears,
    ensures
        r matches Ok(v) ==> v.wf(),
        agrees(r, eval_date_fn(b, params@, *values)),
    decreases params, 0int,
{
    match b {
            Builtin::Date => Ok(ExprResult::Date(exec_to_date::<N>(&params[0], values)?)),
            Builtin::DateAddMonths => {
                let d = exec_to_date::<N>(&params[0], values)?;
                let k = exec_to_int::<N>(&params[1], values)?;
                Ok(ExprResult::Date(add_months(&d, k)?))
            },
            Builtin::DateAddYears => {
                let d = exec_to_date::<N>(&params[0], values)?;
                let k = exec_to_int::<N>(&params[1], values)?;
                Ok(ExprResult::Date(add_years(&d, k)?))
            },
        _ => {
            let d = exec_to_date::<N>(&params[0], values)?;
            let k = exec_to_int::<N>(&params[1], values)?;
            Ok(ExprResult::Date(add_years(&d, k)?))
        },
    }
}

fn f_find<N: Number>(params: &Vec<Expr>, values: &IdentifierValues) -> (r: Result<ExprResult<N>, String>)
    requires
        2 <= params@.len() <= 3,
    ensures
        r matches Ok(v) ==> v.wf(),
        params@.len() == 2 ==> agrees(r, eval_texts(Builtin::Find, params@, *values)),
    decreases params, 0int,
{
    let start: i64 = if params.len() == 3 {
        exec_to_int::<N>(&params[2], values)?
    } else {
        1
    };
    let needle = exec_to_string::<N>(&params[0], values)?;
    let haystack = exec_to_string::<N>(&params[1], values)?;
    let position = find_text(needle.as_str(), haystack.as_str(), start)?;
    Ok(ExprResult::Num(N::from_int(position)))
}

/// The byte offset where `Find` starts looking: the 1-based `start` made
/// 0-based, at least 0 and at most the text's length in bytes.
pub open spec fn find_start(start: i64, haystack: Seq<char>) -> int {
    if start <= 1 {
        0
    } else if start - 1 > encode_utf8(haystack).len() {
        encode_utf8(haystack).len() as int
    } else {
        start - 1
    }
}

/// `Find`: the 1-based byte position of the first case-insensitive match
/// of the literal `needle` in `haystack` from the 1-based position `start`
/// on, or 0 when there is none.
pub fn find_text(needle: &str, haystack: &str, start: i64) -> (r: Result<i64, String>)
    ensures
        r is Ok <==> regex_compiles(search_pattern(needle@), true),
        needle@.len() <= 64 ==> r is Ok,
        r matches Ok(p) ==> match regex_find_from(search_pattern(needle@), true, haystack@, find_start(start, haystack@)) {
            Some(i) => (i < i64::MAX ==> p == i + 1),
            None => p == 0,
        },
{
    let len = haystack.as_bytes().len();
    let s: usize = if start <= 1 {
        0
    } else if (start - 1) as u64 > len as u64 {
        len
    } else {
        (start - 1) as usize
    };
    assert(len == encode_utf8(haystack@).len());
    assert(s as int == find_start(start, haystack@));
    assert(crate::matching::clamped_start(s, haystack@) == s as int);
    let found = crate::matching::find_position(needle, haystack, s)?;
    assert(found matches Some(i) ==> i as int <= len);
    Ok(match found {
        Some(i) => if (i as u64) < 9223372036854775807u64 { i as i64 + 1 } else { i64::MAX },
        None => 0,
    })
}

fn f_fixed<N: Number>(params: &Vec<Expr>, values: &IdentifierValues) -> (r: Result<ExprResult<N>, String>)
    requires
        1 <= params@.len() <= 3,
    ensures
        r matches Ok(v) ==> v.wf(),
        fixed_succeeds(params@, *values) ==> r matches Ok(ExprResult::Str(_)),
        (params@.len() == 3 && to_bool_o(eval(params@[2], *values)) == Outcome::Value(Val::Bool(false)))
            ==> (r matches Ok(ExprResult::Str(x)) ==> exists|t: Seq<char>| #[trigger] grouped_fixed(t) == x@),
    decreases params, 0int,
{
    let number = exec_to_num::<N>(&params[0], values, None)?;
    let decimals: usize = if params.len() >= 2 {
        let d = exec_to_int::<N>(&params[1], values)?;
        if d < 0 { 0 } else { d as usize }
    } else {
        2
    };
    let no_commas = if params.len() == 3 {
        exec_to_bool::<N>(&params[2], values)?
    } else {
        true
    };
    let t = number.fixed_text(decimals);
    if no_commas {
        text_result(t)
    } else {
        text_result(group_fixed_text(t.as_str()))
    }
}

fn f_split<N: Number>(params: &Vec<Expr>, values: &IdentifierValues) -> (r: Result<ExprResult<N>, String>)
    requires
        params@.len() == 3,
    ensures
        r matches Ok(v) ==> v.wf(),
        (params@[0] is Str && params@[1] is Str && literal_int(params@[2]) is Some) ==> ({
            let pieces = text::split_pieces(literal_text(params@[0])->Some_0, literal_text(params@[1])->Some_0);
            let i = split_index(literal_int(params@[2])->Some_0);
            if i < pieces.len() {
                r matches Ok(ExprResult::Str(x)) && x@ == pieces[i]
            } else {
                r == Ok::<ExprResult<N>, String>(ExprResult::Null)
            }
        }),
    decreases params, 0int,
{
    let s = exec_to_string::<N>(&params[0], values)?;
    let separator = exec_to_string::<N>(&params[1], values)?;
    let k = exec_to_int::<N>(&params[2], values)?;
    let parts = text::split_text(s.as_str(), separator.as_str());
    if k < 0 {
        if parts.len() > 0 {
            return text_result(parts[0].clone());
        } else {
            return Ok(ExprResult::Null);
        }
    }
    if (k as u64) < (parts.len() as u64) {
        let index = k as usize;
        text_result(parts[index].clone())
    } else {
        Ok(ExprResult::Null)
    }
}

/// Whether `text` matches the key of a replacement pair: equal to it
/// ignoring case, or matched by it as a `LIKE` pattern.
pub open spec fn key_matches(text: Seq<char>, key: Seq<char>, like: bool) -> bool {
    regex_matches(if like { like_search_pattern(key) } else { equals_pattern(key) }, true, text)
}

/// Whether the pattern for a replacement key compiles.
pub open spec fn key_compiles(key: Seq<char>, like: bool) -> bool {
    regex_compiles(if like { like_search_pattern(key) } else { equals_pattern(key) }, true)
}

/// Whether the keys of a replacement whose arguments are string literals
/// all compile.
pub open spec fn keys_compile(params: Seq<Expr>, like: bool) -> bool {
    forall|i: int| 2 <= i < params.len() ==> key_compiles(literal_text(#[trigger] params[i])->Some_0, like)
}

/// Whether the `LIKE` patterns after the first argument all compile.
pub open spec fn like_patterns_compile(params: Seq<Expr>) -> bool {
    forall|i: int| 1 <= i < params.len() ==> regex_compiles(like_search_pattern(literal_text(#[trigger] params[i])->Some_0), true)
}

/// The index of the argument that a replacement gives, when the text and
/// the keys from index `i` on are string literals: the value after the
/// first key that matches, else the default (index 1).
pub open spec fn replacement_choice(text: Seq<char>, params: Seq<Expr>, like: bool, i: int) -> int
    decreases params.len() - i,
{
    if i < 2 || i + 1 >= params.len() {
        1
    } else if key_matches(text, literal_text(params[i])->Some_0, like) {
        i + 1
    } else {
        replacement_choice(text, params, like, i + 2)
    }
}

/// Tests the text against one key; see `key_matches`.
pub fn match_key(text: &str, key: &str, like: bool) -> (r: Result<bool, String>)
    ensures
        r is Ok <==> key_compiles(key@, like),
        key@.len() <= 64 ==> r is Ok,
        r matches Ok(b) ==> b == key_matches(text@, key@, like),
{
    let m = if like {
        make_case_insensitive_like_regex(key)?
    } else {
        make_case_insensitive_equals_regex(key)?
    };
    Ok(matcher_is_match(&m, text))
}

fn f_replace<N: Number>(params: &Vec<Expr>, values: &IdentifierValues, like: bool) -> (r: Result<ExprResult<N>, String>)
    requires
        params@.len() >= 4,
    ensures
        r matches Ok(v) ==> v.wf(),
        (all_texts(params@) && keys_compile(params@, like)) ==> r == Ok::<ExprResult<N>, String>(
            literal_of::<N>(params@[replacement_choice(literal_text(params@[0])->Some_0, params@, like, 2)])->Some_0),
        agrees(r, eval_replace_start(params@, like, *values)),
    decreases params, 0int,
{
    let text = exec_to_string::<N>(&params[0], values)?;
    let mut i: usize = 2;
    while i < params.len() - 1
        invariant
            2 <= i <= params@.len(),
            params@.len() >= 4,
            eval_replace_start(params@, like, *values) is Unknown
                || eval_replace_start(params@, like, *values) == eval_replace(params@, text@, like, i as int, *values),
            i % 2 == 0,
            all_texts(params@) ==> text@ == literal_text(params@[0])->Some_0
                && replacement_choice(text@, params@, like, 2) == replacement_choice(text@, params@, like, i as int),
        decreases params@.len() - i,
    {
        let key = exec_to_string::<N>(&params[i], values)?;
        if match_key(text.as_str(), key.as_str(), like)? {
            proof {
                if all_texts(params@) {
                    assert(params@[i + 1] is Str);
                }
            }
            return exec_expr(&params[i + 1], values);
        }
        i = i + 2;
    }
    proof {
        if all_texts(params@) {
            assert(params@[1] is Str);
        }
    }
    exec_expr(&params[1], values)
}

fn number_message<N: Number>(head: &str, a: &N, mid: &str, b: &N, tail: &str) -> (r: String) {
    let mut m = String::new();
    push_text(&mut m, head);
    let x = a.to_text();
    push_text(&mut m, x.as_str());
    push_text(&mut m, mid);
    let y = b.to_text();
    push_text(&mut m, y.as_str());
    push_text(&mut m, tail);
    m
}

fn f_product<N: Number>(params: &Vec<Expr>, values: &IdentifierValues) -> (r: Result<ExprResult<N>, String>)
    ensures
        r matches Ok(v) ==> v.wf(),
    decreases params, 0int,
{
    let mut acc = N::from_int(1);
    let mut i: usize = 0;
    while i < params.len()
        invariant
            i <= params@.len(),
        decreases params@.len() - i,
    {
        let x = exec_to_num::<N>(&params[i], values, None)?;
        match acc.times(&x) {
            Some(v) => {
                acc = v;
            },
            None => {
                return Err(number_message("Couldn't multiply ", &acc, " by ", &x, ": overflow"));
            },
        }
        i = i + 1;
    }
    Ok(ExprResult::Num(acc))
}

fn f_sum<N: Number>(params: &Vec<Expr>, values: &IdentifierValues) -> (r: Result<ExprResult<N>, String>)
    ensures
        r matches Ok(v) ==> v.wf(),
    decreases params, 0int,
{
    let mut acc = N::from_int(0);
    let mut i: usize = 0;
    while i < params.len()
        invariant
            i <= params@.len(),
        decreases params@.len() - i,
    {
        let x = exec_to_num::<N>(&params[i], values, None)?;
        match acc.plus(&x) {
            Some(v) => {
                acc = v;
            },
            None => {
                return Err(number_message("Couldn't add ", &x, " to ", &acc, ": overflow"));
            },
        }
        i = i + 1;
    }
    Ok(ExprResult::Num(acc))
}

fn f_arithmetic<N: Number>(b: Builtin, params: &Vec<Expr>, values: &IdentifierValues) -> (r: Result<ExprResult<N>, String>)
    requires
        params@.len() == 2,
    ensures
        r matches Ok(v) ==> v.wf(),
    decreases params, 0int,
{
    let x = exec_to_num::<N>(&params[0], values, None)?;
    match b {
        Builtin::Round => {
            let k = exec_to_int::<N>(&params[1], values)?;
            let digits: u32 = if k < 0 { 0 } else if k > 4294967295i64 { 4294967295u32 } else { k as u32 };
            match x.rounded(digits) {
                Some(v) => Ok(ExprResult::Num(v)),
                None => {
                    let mut m = String::new();
                    push_text(&mut m, "Couldn't round ");
                    let t = x.to_text();
                    push_text(&mut m, t.as_str());
                    push_text(&mut m, " to ");
                    let d = crate::numtext::nat_text(digits as u64);
                    push_text(&mut m, d.as_str());
                    push_text(&mut m, " digits");
                    Err(m)
                },
            }
        },
        Builtin::Subtract => {
            let y = exec_to_num::<N>(&params[1], values, None)?;
            match x.minus(&y) {
                Some(v) => Ok(ExprResult::Num(v)),
                None => Err(number_message("Couldn't subtract ", &y, " from ", &x, "")),
            }
        },
        Builtin::Mod => {
            let y = exec_to_num::<N>(&params[1], values, None)?;
            match x.remainder(&y) {
                Some(v) => Ok(ExprResult::Num(v)),
                None => Err(number_message("Couldn't module ", &x, " by ", &y, "")),
            }
        },
        _ => {
            let y = exec_to_num::<N>(&params[1], values, None)?;
            match x.divided_by(&y) {
                Some(v) => Ok(ExprResult::Num(v)),
                None => Err(number_message("Couldn't divide ", &x, " by ", &y, "")),
            }
        },
    }
}

fn f_date_diff<N: Number>(b: Builtin, params: &Vec<Expr>, values: &IdentifierValues) -> (r: Result<ExprResult<N>, String>)
    requires
        params@.len() == 2,
    ensures
        r matches Ok(v) ==> v.wf(),
        b == Builtin::DateDiff ==> agrees(r, eval_date_fn(b, params@, *values)),
    decreases params, 0int,
{
    let x = exec_to_date::<N>(&params[0], values)?;
    let y = exec_to_date::<N>(&params[1], values)?;
    let secs = seconds_between(&x, &y);
    let unit: i64 = match b {
        Builtin::DateDiffHours => 3600,
        Builtin::DateDiffDays => 86400,
        Builtin::DateDiffMonths => 2635200,
        _ => 1,
    };
    if unit == 1 {
        return Ok(ExprResult::TimeSpan(secs));
    }
    let n = N::from_int(secs);
    let u = N::from_int(unit);
    match n.divided_by(&u) {
        Some(v) => Ok(ExprResult::Num(v)),
        None => Err(number_message("Couldn't divide ", &n, " by ", &u, "")),
    }
}

fn f_date_compare<N: Number>(b: Builtin, params: &Vec<Expr>, values: &IdentifierValues) -> (r: Result<ExprResult<N>, String>)
    requires
        2 <= params@.len() <= 8,
    ensures
        r matches Ok(v) ==> v.wf(),
        literal_dates_compared::<N>(b, params@, r),
        agrees(r, eval_dates(b, params@, *values)),
    decreases params, 0int,
{
    let mut flags: Vec<bool> = Vec::new();
    let mut i: usize = 2;
    assert(with_prefix(flags@, eval_flags(params@, 2, *values)) =~= eval_flags(params@, 2, *values)) by {
        if eval_flags(params@, 2, *values) is Ok {
            assert(flags@ + eval_flags(params@, 2, *values)->Ok_0 =~= eval_flags(params@, 2, *values)->Ok_0);
        }
    }
    while i < 8
        invariant
            2 <= i <= 8,
            eval_flags(params@, 2, *values) == Err::<Seq<bool>, Outcome>(Outcome::Unknown)
                || eval_flags(params@, 2, *values) == with_prefix(flags@, eval_flags(params@, i as int, *values)),
            flags@.len() == i - 2,
            params@.len() <= 8,
            flags_literal(params@) ==> flags@ == literal_flags(params@).subrange(0, i - 2),
        decreases 8 - i,
    {
        let f = if i < params.len() {
            exec_to_bool::<N>(&params[i], values)?
        } else {
            false
        };
        let ghost before = flags@;
        flags.push(f);
        proof {
            let rest = eval_flags(params@, i + 1, *values);
            if eval_flags(params@, 2, *values) != Err::<Seq<bool>, Outcome>(Outcome::Unknown) {
                if i < params@.len() {
                    let o = to_bool_o(eval(params@[i as int], *values));
                    if !(o matches Outcome::Value(Val::Bool(_))) {
                        assert(eval_flags(params@, i as int, *values) == Err::<Seq<bool>, Outcome>(o));
                    }
                    assert(o == Outcome::Value(Val::Bool(f)));
                }
                if rest is Ok {
                    assert(before + (seq![f] + rest->Ok_0) =~= flags@ + rest->Ok_0);
                }
                assert(eval_flags(params@, 2, *values) == with_prefix(flags@, rest));
            }
            if flags_literal(params@) {
                if i < params@.len() {
                    assert(params@[i as int] is Boolean);
                }
                assert(flags@ =~= literal_flags(params@).subrange(0, i - 1));
            }
        }
        i = i + 1;
    }
    assert(flags_literal(params@) ==> flags@ =~= literal_flags(params@));
    let x = exec_to_date::<N>(&params[0], values)?;
    let y = exec_to_date::<N>(&params[1], values)?;
    boolean(compare_dates(b, &x, &y, &flags))
}

/// The flags of a date comparison whose flag arguments are boolean
/// literals; a missing flag is false.
pub open spec fn literal_flags(params: Seq<Expr>) -> Seq<bool> {
    Seq::new(6, |i: int| i + 2 < params.len() && params[i + 2] == Expr::Boolean(true))
}

pub open spec fn flags_literal(params: Seq<Expr>) -> bool {
    forall|i: int| 2 <= i < params.len() ==> (#[trigger] params[i]) is Boolean
}

/// Flags read so far, put before the rest.
pub open spec fn with_prefix(pre: Seq<bool>, rest: Result<Seq<bool>, Outcome>) -> Result<Seq<bool>, Outcome> {
    match rest {
        Ok(r) => Ok(pre + r),
        Err(o) => Err(o),
    }
}

/// A date comparison of two string literals that read as date-times, with
/// boolean literal flags, compares them after the flags' defaults.
pub open spec fn literal_dates_compared<N>(b: Builtin, params: Seq<Expr>, r: Result<ExprResult<N>, String>) -> bool {
    (2 <= params.len() <= 8 && params[0] is Str && params[1] is Str && flags_literal(params)
        && read_date(literal_text(params[0])->Some_0) is Some && read_date(literal_text(params[1])->Some_0) is Some)
    ==> r == Ok::<ExprResult<N>, String>(ExprResult::Boolean(date_comparison(b,
        defaulted(read_date(literal_text(params[0])->Some_0)->Some_0, literal_flags(params)),
        defaulted(read_date(literal_text(params[1])->Some_0)->Some_0, literal_flags(params)))))
}

/// When `Fixed` succeeds: its number evaluates to a number, its decimals
/// (if given) to an integer and its flag (if given) to a boolean.
pub open spec fn fixed_succeeds(ps: Seq<Expr>, values: IdentifierValues) -> bool {
    &&& 1 <= ps.len() <= 3
    &&& eval(ps[0], values) == Outcome::Value(Val::Other)
    &&& (ps.len() < 2 || to_int_r(eval(ps[1], values)) is Ok)
    &&& (ps.len() < 3 || to_bool_o(eval(ps[2], values)) matches Outcome::Value(Val::Bool(_)))
}

/// What a date comparison says of two date-times.
pub open spec fn date_comparison(b: Builtin, x: DateTime, y: DateTime) -> bool {
    match b {
        Builtin::DateEquals => x == y,
        Builtin::DateNotEquals => x != y,
        Builtin::DateLower => date_before(x, y),
        Builtin::DateLowerOrEquals => !date_before(y, x),
        Builtin::DateGreater => date_before(y, x),
        _ => !date_before(x, y),
    }
}

/// Compares two date-times as the date comparison `b` does, after setting
/// to 1 the components that `flags` (year, month, day, hour, minute,
/// second) pick on both.
pub fn compare_dates(b: Builtin, x: &DateTime, y: &DateTime, flags: &Vec<bool>) -> (r: bool)
    requires
        flags@.len() == 6,
    ensures
        r == date_comparison(b, defaulted(*x, flags@), defaulted(*y, flags@)),
{
    let x = with_defaults(x, flags);
    let y = with_defaults(y, flags);
    match b {
        Builtin::DateEquals => x == y,
        Builtin::DateNotEquals => x != y,
        Builtin::DateLower => x.is_before(&y),
        Builtin::DateLowerOrEquals => !y.is_before(&x),
        Builtin::DateGreater => y.is_before(&x),
        _ => !x.is_before(&y),
    }
}

fn f_date_add_seconds<N: Number>(params: &Vec<Expr>, values: &IdentifierValues, unit: i64) -> (r: Result<ExprResult<N>, String>)
    requires
        params@.len() == 2,
    ensures
        r matches Ok(v) ==> v.wf(),
    decreases params, 0int,
{
    let d = exec_to_date::<N>(&params[0], values)?;
    let k = exec_to_num::<N>(&params[1], values, None)?;
    let u = N::from_int(unit);
    let secs = match k.times(&u) {
        Some(v) => v.truncated(),
        None => {
            return Err(number_message("Couldn't multiply ", &k, " by ", &u, ": overflow"));
        },
    };
    Ok(ExprResult::Date(shift_seconds(&d, secs)?))
}

fn f_in<N: Number>(params: &Vec<Expr>, values: &IdentifierValues) -> (r: Result<ExprResult<N>, String>)
    requires
        params@.len() >= 2,
    ensures
        r matches Ok(v) ==> v.wf(),
        all_texts(params@) ==> r == Ok::<ExprResult<N>, String>(ExprResult::Boolean(
            exists|i: int| 1 <= i < params@.len() && literal_text(#[trigger] params@[i]) == literal_text(params@[0]))),
    decreases params, 0int,
{
    let search = exec_expr::<N>(&params[0], values)?;
    let mut i: usize = 1;
    while i < params.len()
        invariant
            1 <= i <= params@.len(),
            all_texts(params@) ==> search == literal_of::<N>(params@[0])->Some_0,
            all_texts(params@) ==> forall|k: int| 1 <= k < i ==> literal_text(#[trigger] params@[k]) != literal_text(params@[0]),
        decreases params@.len() - i,
    {
        proof {
            if all_texts(params@) {
                assert(params@[i as int] is Str);
                assert(params@[0] is Str);
            }
        }
        let v = exec_expr::<N>(&params[i], values)?;
        if results_are_equals(&search, &v) {
            return boolean(true);
        }
        i = i + 1;
    }
    proof {
        if all_texts(params@) {
            assert(!exists|k: int| 1 <= k < params@.len() && literal_text(#[trigger] params@[k]) == literal_text(params@[0]));
        }
    }
    boolean(false)
}

fn f_in_like<N: Number>(params: &Vec<Expr>, values: &IdentifierValues) -> (r: Result<ExprResult<N>, String>)
    requires
        params@.len() >= 2,
    ensures
        r matches Ok(v) ==> v.wf(),
        (all_texts(params@) && like_patterns_compile(params@)) ==> r == Ok::<ExprResult<N>, String>(ExprResult::Boolean(
            exists|i: int| 1 <= i < params@.len() && regex_matches(like_search_pattern(literal_text(#[trigger] params@[i])->Some_0), true,
                literal_text(params@[0])->Some_0))),
        agrees(r, eval_call(Builtin::InLike, params@, *values)),
    decreases params, 0int,
{
    let needle = exec_to_string::<N>(&params[0], values)?;
    let mut i: usize = 1;
    while i < params.len()
        invariant
            1 <= i <= params@.len(),
            eval_call(Builtin::InLike, params@, *values) is Unknown
                || eval_call(Builtin::InLike, params@, *values) == eval_in_like(params@, needle@, i as int, *values),
            all_texts(params@) ==> needle@ == literal_text(params@[0])->Some_0,
            all_texts(params@) ==> forall|k: int| 1 <= k < i ==> !regex_matches(like_search_pattern(literal_text(#[trigger] params@[k])->Some_0), true,
                literal_text(params@[0])->Some_0),
        decreases params@.len() - i,
    {
        proof {
            if all_texts(params@) {
                assert(params@[i as int] is Str);
                assert(params@[0] is Str);
            }
        }
        let p = exec_to_string::<N>(&params[i], values)?;
        let m = make_case_insensitive_like_regex(p.as_str())?;
        if matcher_is_match(&m, needle.as_str()) {
            return boolean(true);
        }
        i = i + 1;
    }
    boolean(false)
}

fn f_first_not_null<N: Number>(params: &Vec<Expr>, values: &IdentifierValues) -> (r: Result<ExprResult<N>, String>)
    ensures
        r matches Ok(v) ==> v.wf(),
        params@.len() >= 1 && literal_of::<N>(params@[0]) is Some ==> r == Ok::<ExprResult<N>, String>(literal_of::<N>(params@[0])->Some_0),
        params@.len() == 0 ==> r == Ok::<ExprResult<N>, String>(ExprResult::Null),
        agrees(r, eval_first(params@, 0, *values)),
    decreases params, 0int,
{
    let mut i: usize = 0;
    while i < params.len()
        invariant
            i <= params@.len(),
            eval_first(params@, 0, *values) is Unknown || eval_first(params@, 0, *values) == eval_first(params@, i as int, *values),
            i > 0 ==> !(params@.len() >= 1 && literal_of::<N>(params@[0]) is Some),
        decreases params@.len() - i,
    {
        let v = exec_expr::<N>(&params[i], values)?;
        if !matches!(v, ExprResult::Null) {
            return Ok(v);
        }
        i = i + 1;
    }
    Ok(ExprResult::Null)
}

fn f_concat<N: Number>(params: &Vec<Expr>, values: &IdentifierValues) -> (r: Result<ExprResult<N>, String>)
    ensures
        r matches Ok(v) ==> v.wf(),
        all_texts(params@) ==> (r matches Ok(ExprResult::Str(x)) && x@ == joined_texts(params@)),
    decreases params, 0int,
{
    let mut out = String::new();
    let mut i: usize = 0;
    while i < params.len()
        invariant
            i <= params@.len(),
            all_texts(params@) ==> out@ == joined_texts(params@.subrange(0, i as int)),
        decreases params@.len() - i,
    {
        let s = exec_to_string::<N>(&params[i], values)?;
        push_text(&mut out, s.as_str());
        proof {
            if all_texts(params@) {
                assert(params@[i as int] is Str);
                assert(params@.subrange(0, i + 1).drop_last() =~= params@.subrange(0, i as int));
            }
        }
        i = i + 1;
    }
    assert(params@.subrange(0, params@.len() as int) =~= params@);
    text_result(out)
}

fn f_and<N: Number>(params: &Vec<Expr>, values: &IdentifierValues) -> (r: Result<ExprResult<N>, String>)
    ensures
        r matches Ok(v) ==> v.wf(),
        params@.len() >= 1 && known_bool(params@[0]) == Some(false) ==> r == Ok::<ExprResult<N>, String>(ExprResult::Boolean(false)),
        all_booleans(params@) ==> r == Ok::<ExprResult<N>, String>(ExprResult::Boolean(forall|i: int| 0 <= i < params@.len() ==> #[trigger] params@[i] == Expr::Boolean(true))),
        agrees(r, eval_and(params@, 0, *values)),
    decreases params, 0int,
{
    let mut i: usize = 0;
    while i < params.len()
        invariant
            i <= params@.len(),
            eval_and(params@, 0, *values) is Unknown || eval_and(params@, 0, *values) == eval_and(params@, i as int, *values),
            i > 0 ==> !(known_bool(params@[0]) == Some(false)),
            all_booleans(params@) ==> forall|k: int| 0 <= k < i ==> #[trigger] params@[k] == Expr::Boolean(true),
        decreases params@.len() - i,
    {
        let b = exec_to_bool::<N>(&params[i], values)?;
        if !b {
            return boolean(false);
        }
        i = i + 1;
    }
    boolean(true)
}

fn f_or<N: Number>(params: &Vec<Expr>, values: &IdentifierValues) -> (r: Result<ExprResult<N>, String>)
    ensures
        r matches Ok(v) ==> v.wf(),
        params@.len() >= 1 && known_bool(params@[0]) == Some(true) ==> r == Ok::<ExprResult<N>, String>(ExprResult::Boolean(true)),
        all_booleans(params@) ==> r == Ok::<ExprResult<N>, String>(ExprResult::Boolean(exists|i: int| 0 <= i < params@.len() && #[trigger] params@[i] == Expr::Boolean(true))),
        agrees(r, eval_or(params@, 0, *values)),
    decreases params, 0int,
{
    let mut i: usize = 0;
    while i < params.len()
        invariant
            i <= params@.len(),
            eval_or(params@, 0, *values) is Unknown || eval_or(params@, 0, *values) == eval_or(params@, i as int, *values),
            i > 0 ==> !(known_bool(params@[0]) == Some(true)),
            all_booleans(params@) ==> forall|k: int| 0 <= k < i ==> #[trigger] params@[k] == Expr::Boolean(false),
        decreases params@.len() - i,
    {
        let b = exec_to_bool::<N>(&params[i], values)?;
        if b {
            return boolean(true);
        }
        i = i + 1;
    }
    boolean(false)
}

} // verus!
