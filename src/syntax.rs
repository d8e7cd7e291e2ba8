//! The syntax tree, the table of built-in functions, and the binder that
//! resolves function names against it.
use vstd::prelude::*;
use crate::strings::text_eq;

verus! {

broadcast use vstd::std_specs::vec::axiom_vec_index_decreases;

/// Binary operators, for an infix form of the language.
#[derive(Clone, Copy, PartialEq, Eq, Structural, Debug)]
pub enum AssocOp {
    /// `+`
    Add,
    /// `-`
    Subtract,
    /// `*`
    Multiply,
    /// `/`
    Divide,
    /// `%`
    Modulus,
    /// `&&`
    LAnd,
    /// `||`
    LOr,
    /// `==`
    Equal,
    /// `<`
    Less,
    /// `<=`
    LessEqual,
    /// `!=`
    NotEqual,
    /// `>`
    Greater,
    /// `>=`
    GreaterEqual,
}

/// A built-in function. Aliases (`IsNull` and `IsBlank`, `If` and `Iif`,
/// ...) share one.
#[derive(Clone, Copy, PartialEq, Eq, Structural, Debug)]
pub enum Builtin {
    IsNull,
    AreEquals,
    In,
    InLike,
    IsLike,
    FirstNotNull,
    Concat,
    Exact,
    Find,
    Substitute,
    Fixed,
    Left,
    Right,
    Mid,
    Len,
    Lower,
    Upper,
    Trim,
    FirstWord,
    FirstSentence,
    Capitalize,
    Split,
    NumberValue,
    Text,
    StartsWith,
    EndsWith,
    ReplaceEquals,
    ReplaceLike,
    And,
    Or,
    Not,
    Xor,
    Iif,
    Abs,
    Product,
    Sum,
    Divide,
    Subtract,
    Mod,
    Round,
    GreaterThan,
    LowerThan,
    GreaterThanOrEqual,
    LowerThanOrEqual,
    Date,
    Now,
    Year,
    Month,
    Day,
    DateDiff,
    DateDiffHours,
    DateDiffDays,
    DateDiffMonths,
    DateEquals,
    DateNotEquals,
    DateLower,
    DateLowerOrEquals,
    DateGreater,
    DateGreaterOrEquals,
    DateAddHours,
    DateAddDays,
    DateAddMonths,
    DateAddYears,
    LocalDate,
    DateFormat,
    NowSpecificTimeZone,
    Today,
    Time,
}

/// A node of an expression.
#[derive(Debug)]
pub enum Expr {
    Str(String),
    Boolean(bool),
    /// A number literal, as written.
    Num(String),
    Array(Vec<Expr>),
    Identifier(String),
    /// A call of a function that is not bound (yet).
    FunctionCall(String, Vec<Expr>),
    /// A call bound to a built-in function.
    PreparedFunctionCall(String, Vec<Expr>, Builtin),
}

/// The function names, each with the built-in it stands for.
pub open spec fn function_table() -> Seq<(Seq<char>, Builtin)> {
    seq![
        ("IsNull"@, Builtin::IsNull),
        ("IsBlank"@, Builtin::IsNull),
        ("AreEquals"@, Builtin::AreEquals),
        ("In"@, Builtin::In),
        ("InLike"@, Builtin::InLike),
        ("IsLike"@, Builtin::IsLike),
        ("Like"@, Builtin::IsLike),
        ("FirstNotNull"@, Builtin::FirstNotNull),
        ("FirstNotEmpty"@, Builtin::FirstNotNull),
        ("Concatenate"@, Builtin::Concat),
        ("Concat"@, Builtin::Concat),
        ("Exact"@, Builtin::Exact),
        ("Find"@, Builtin::Find),
        ("Substitute"@, Builtin::Substitute),
        ("Fixed"@, Builtin::Fixed),
        ("Left"@, Builtin::Left),
        ("Right"@, Builtin::Right),
        ("Mid"@, Builtin::Mid),
        ("Len"@, Builtin::Len),
        ("Lower"@, Builtin::Lower),
        ("Upper"@, Builtin::Upper),
        ("Trim"@, Builtin::Trim),
        ("FirstWord"@, Builtin::FirstWord),
        ("FirstSentence"@, Builtin::FirstSentence),
        ("Capitalize"@, Builtin::Capitalize),
        ("Split"@, Builtin::Split),
        ("NumberValue"@, Builtin::NumberValue),
        ("Text"@, Builtin::Text),
        ("StartsWith"@, Builtin::StartsWith),
        ("EndsWith"@, Builtin::EndsWith),
        ("ReplaceEquals"@, Builtin::ReplaceEquals),
        ("ReplaceLike"@, Builtin::ReplaceLike),
        ("And"@, Builtin::And),
        ("Or"@, Builtin::Or),
        ("Not"@, Builtin::Not),
        ("Xor"@, Builtin::Xor),
        ("Iif"@, Builtin::Iif),
        ("If"@, Builtin::Iif),
        ("Abs"@, Builtin::Abs),
        ("Product"@, Builtin::Product),
        ("Sum"@, Builtin::Sum),
        ("Divide"@, Builtin::Divide),
        ("Subtract"@, Builtin::Subtract),
        ("Mod"@, Builtin::Mod),
        ("Modulo"@, Builtin::Mod),
        ("Round"@, Builtin::Round),
        ("GreaterThan"@, Builtin::GreaterThan),
        ("Gt"@, Builtin::GreaterThan),
        ("LowerThan"@, Builtin::LowerThan),
        ("Lt"@, Builtin::LowerThan),
        ("GreaterThanOrEqual"@, Builtin::GreaterThanOrEqual),
        ("Gtoe"@, Builtin::GreaterThanOrEqual),
        ("LowerThanOrEqual"@, Builtin::LowerThanOrEqual),
        ("Ltoe"@, Builtin::LowerThanOrEqual),
        ("Date"@, Builtin::Date),
        ("Now"@, Builtin::Now),
        ("Year"@, Builtin::Year),
        ("Month"@, Builtin::Month),
        ("Day"@, Builtin::Day),
        ("DateDiff"@, Builtin::DateDiff),
        ("DateDiffHours"@, Builtin::DateDiffHours),
        ("DateDiffDays"@, Builtin::DateDiffDays),
        ("DateDiffMonths"@, Builtin::DateDiffMonths),
        ("DateEquals"@, Builtin::DateEquals),
        ("DateNotEquals"@, Builtin::DateNotEquals),
        ("DateLower"@, Builtin::DateLower),
        ("DateLowerOrEquals"@, Builtin::DateLowerOrEquals),
        ("DateGreater"@, Builtin::DateGreater),
        ("DateGreaterOrEquals"@, Builtin::DateGreaterOrEquals),
        ("DateAddHours"@, Builtin::DateAddHours),
        ("DateAddDays"@, Builtin::DateAddDays),
        ("DateAddMonths"@, Builtin::DateAddMonths),
        ("DateAddYears"@, Builtin::DateAddYears),
        ("LocalDate"@, Builtin::LocalDate),
        ("DateFormat"@, Builtin::DateFormat),
        ("NowSpecificTimeZone"@, Builtin::NowSpecificTimeZone),
        ("Today"@, Builtin::Today),
        ("Time"@, Builtin::Time),
    ]
}

/// The built-in of the first entry of `t` named `name`.
pub open spec fn builtin_in(t: Seq<(Seq<char>, Builtin)>, name: Seq<char>) -> Option<Builtin>
    decreases t.len(),
{
    if t.len() == 0 {
        None
    } else if t[0].0 == name {
        Some(t[0].1)
    } else {
        builtin_in(t.drop_first(), name)
    }
}

/// The built-in that a function name (case-sensitive) stands for.
pub open spec fn builtin_named(name: Seq<char>) -> Option<Builtin> {
    builtin_in(function_table(), name)
}

/// The table of function names and the built-ins they stand for.
pub fn get_functions() -> (r: Vec<(&'static str, Builtin)>)
    ensures
        r@.len() == function_table().len(),
        forall|i: int| 0 <= i < r@.len() ==> (#[trigger] r@[i]).0@ == function_table()[i].0 && r@[i].1 == function_table()[i].1,
{
    let r = vec![
        ("IsNull", Builtin::IsNull),
        ("IsBlank", Builtin::IsNull),
        ("AreEquals", Builtin::AreEquals),
        ("In", Builtin::In),
        ("InLike", Builtin::InLike),
        ("IsLike", Builtin::IsLike),
        ("Like", Builtin::IsLike),
        ("FirstNotNull", Builtin::FirstNotNull),
        ("FirstNotEmpty", Builtin::FirstNotNull),
        ("Concatenate", Builtin::Concat),
        ("Concat", Builtin::Concat),
        ("Exact", Builtin::Exact),
        ("Find", Builtin::Find),
        ("Substitute", Builtin::Substitute),
        ("Fixed", Builtin::Fixed),
        ("Left", Builtin::Left),
        ("Right", Builtin::Right),
        ("Mid", Builtin::Mid),
        ("Len", Builtin::Len),
        ("Lower", Builtin::Lower),
        ("Upper", Builtin::Upper),
        ("Trim", Builtin::Trim),
        ("FirstWord", Builtin::FirstWord),
        ("FirstSentence", Builtin::FirstSentence),
        ("Capitalize", Builtin::Capitalize),
        ("Split", Builtin::Split),
        ("NumberValue", Builtin::NumberValue),
        ("Text", Builtin::Text),
        ("StartsWith", Builtin::StartsWith),
        ("EndsWith", Builtin::EndsWith),
        ("ReplaceEquals", Builtin::ReplaceEquals),
        ("ReplaceLike", Builtin::ReplaceLike),
        ("And", Builtin::And),
        ("Or", Builtin::Or),
        ("Not", Builtin::Not),
        ("Xor", Builtin::Xor),
        ("Iif", Builtin::Iif),
        ("If", Builtin::Iif),
        ("Abs", Builtin::Abs),
        ("Product", Builtin::Product),
        ("Sum", Builtin::Sum),
        ("Divide", Builtin::Divide),
        ("Subtract", Builtin::Subtract),
        ("Mod", Builtin::Mod),
        ("Modulo", Builtin::Mod),
        ("Round", Builtin::Round),
        ("GreaterThan", Builtin::GreaterThan),
        ("Gt", Builtin::GreaterThan),
        ("LowerThan", Builtin::LowerThan),
        ("Lt", Builtin::LowerThan),
        ("GreaterThanOrEqual", Builtin::GreaterThanOrEqual),
        ("Gtoe", Builtin::GreaterThanOrEqual),
        ("LowerThanOrEqual", Builtin::LowerThanOrEqual),
        ("Ltoe", Builtin::LowerThanOrEqual),
        ("Date", Builtin::Date),
        ("Now", Builtin::Now),
        ("Year", Builtin::Year),
        ("Month", Builtin::Month),
        ("Day", Builtin::Day),
        ("DateDiff", Builtin::DateDiff),
        ("DateDiffHours", Builtin::DateDiffHours),
        ("DateDiffDays", Builtin::DateDiffDays),
        ("DateDiffMonths", Builtin::DateDiffMonths),
        ("DateEquals", Builtin::DateEquals),
        ("DateNotEquals", Builtin::DateNotEquals),
        ("DateLower", Builtin::DateLower),
        ("DateLowerOrEquals", Builtin::DateLowerOrEquals),
        ("DateGreater", Builtin::DateGreater),
        ("DateGreaterOrEquals", Builtin::DateGreaterOrEquals),
        ("DateAddHours", Builtin::DateAddHours),
        ("DateAddDays", Builtin::DateAddDays),
        ("DateAddMonths", Builtin::DateAddMonths),
        ("DateAddYears", Builtin::DateAddYears),
        ("LocalDate", Builtin::LocalDate),
        ("DateFormat", Builtin::DateFormat),
        ("NowSpecificTimeZone", Builtin::NowSpecificTimeZone),
        ("Today", Builtin::Today),
        ("Time", Builtin::Time),
    ];
    r
}

/// Looks a function name up in the table.
pub fn find_function(name: &str) -> (r: Option<Builtin>)
    ensures
        r == builtin_named(name@),
{
    let table = get_functions();
    assert(function_table().subrange(0, function_table().len() as int) =~= function_table());
    let mut i: usize = 0;
    while i < table.len()
        invariant
            i <= table@.len(),
            table@.len() == function_table().len(),
            forall|j: int| 0 <= j < table@.len() ==> (#[trigger] table@[j]).0@ == function_table()[j].0 && table@[j].1 == function_table()[j].1,
            builtin_named(name@) == builtin_in(function_table().subrange(i as int, function_table().len() as int), name@),
        decreases table@.len() - i,
    {
        let ghost rest = function_table().subrange(i as int, function_table().len() as int);
        assert(rest.drop_first() =~= function_table().subrange(i + 1, function_table().len() as int));
        let (n, b) = table[i];
        if text_eq(n, name) {
            return Some(b);
        }
        i = i + 1;
    }
    None
}

/// Whether `r` is `e` with its function calls bound: each call whose name
/// the table holds becomes a bound call of that built-in, other calls stay
/// unbound, and the arguments of calls and the items of arrays are bound in
/// turn. Other nodes stay as they are.
pub open spec fn binds_to(e: Expr, r: Expr) -> bool
    decreases e,
{
    match e {
        Expr::FunctionCall(name, args) => {
            let (rname, rargs) = match r {
                Expr::FunctionCall(n, a) => (n, a),
                Expr::PreparedFunctionCall(n, a, _) => (n, a),
                _ => (name, args),
            };
            &&& match builtin_named(name@) {
                Some(b) => r is PreparedFunctionCall && r->PreparedFunctionCall_2 == b,
                None => r is FunctionCall,
            }
            &&& rname@ == name@
            &&& rargs@.len() == args@.len()
            &&& forall|i: int| 0 <= i < args@.len() ==> binds_to(#[trigger] args@[i], rargs@[i])
        },
        Expr::Array(items) => match r {
            Expr::Array(ritems) => ritems@.len() == items@.len()
                && forall|i: int| 0 <= i < items@.len() ==> binds_to(#[trigger] items@[i], ritems@[i]),
            _ => false,
        },
        _ => r == e,
    }
}

fn prepare_all(items: Vec<Expr>) -> (r: Vec<Expr>)
    ensures
        r@.len() == items@.len(),
        forall|i: int| 0 <= i < items@.len() ==> binds_to(#[trigger] items@[i], r@[i]),
    decreases items,
{
    let ghost orig = items@;
    let n = items.len();
    let mut rest = items;
    let mut out: Vec<Expr> = Vec::new();
    let mut i: usize = 0;
    while rest.len() > 0
        invariant
            i <= orig.len(),
            orig.len() == n,
            rest@ == orig.subrange(i as int, orig.len() as int),
            out@.len() == i,
            orig == items@,
            forall|j: int| 0 <= j < i ==> binds_to(#[trigger] orig[j], out@[j]),
        decreases rest@.len(),
    {
        let x = rest.remove(0);
        assert(x == items@[i as int]);
        assert(decreases_to!(items => items[i as int]));
        let y = prepare_expr(x);
        out.push(y);
        i = i + 1;
        assert(rest@ =~= orig.subrange(i as int, orig.len() as int));
    }
    out
}

/// Binds the function calls of an expression to the built-ins; see `binds_to`.
pub fn prepare_expr(expr: Expr) -> (r: Expr)
    ensures
        binds_to(expr, r),
    decreases expr,
{
    match expr {
        Expr::FunctionCall(name, args) => {
            let bound = prepare_all(args);
            match find_function(name.as_str()) {
                Some(b) => Expr::PreparedFunctionCall(name, bound, b),
                None => Expr::FunctionCall(name, bound),
            }
        },
        Expr::Array(items) => Expr::Array(prepare_all(items)),
        other => other,
    }
}

} // verus!
