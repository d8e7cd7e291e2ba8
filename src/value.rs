//! Evaluated values, the identifier map, and the coercions of values to
//! text, booleans, integers, numbers and dates.
//!
//! Numbers are a type parameter: the library never computes with them
//! itself, it asks the `Number` implementation that the host supplies
//! (a 64-bit float in the usual setting).
use vstd::prelude::*;
use crate::dates::{DateTime, date_text, parse_date, not_a_date_message, utc_reading, NANOS_PER_SECOND};
use crate::matching::{build_matcher, matcher_is_match, regex_matches, true_pattern};
use crate::numbers::{int_reading, parse_i64};
use crate::numtext::{int_digits, int_text};
use crate::strings::push_text;
use crate::text::{replace_with_point, with_point};


verus! {

broadcast use vstd::std_specs::vec::axiom_vec_index_decreases;

/// The numbers of the language, as the host implements them.
pub trait Number: Sized {
    /// Reads a number from text; `None` when the text is not one.
    fn parse_text(text: &str) -> Option<Self>;

    fn from_int(i: i64) -> Self;

    /// The shortest decimal text that reads back as the same number.
    fn to_text(&self) -> String;

    fn duplicate(&self) -> Self;

    fn same_as(&self, other: &Self) -> bool;

    fn less_than(&self, other: &Self) -> bool;

    fn less_or_equal(&self, other: &Self) -> bool;

    /// Rounded toward zero, saturating at the bounds of `i64`.
    fn truncated(&self) -> i64;

    fn absolute(&self) -> Self;

    /// `None` when the operation cannot be carried out.
    fn plus(&self, other: &Self) -> Option<Self>;

    fn minus(&self, other: &Self) -> Option<Self>;

    fn times(&self, other: &Self) -> Option<Self>;

    fn divided_by(&self, other: &Self) -> Option<Self>;

    fn remainder(&self, other: &Self) -> Option<Self>;

    /// Rounded to `digits` decimals, halves away from zero.
    fn rounded(&self, digits: u32) -> Option<Self>;

    /// Rendered with exactly `decimals` digits after the point.
    fn fixed_text(&self, decimals: usize) -> String;
}

/// The value of an expression.
pub enum ExprResult<N> {
    Null,
    Str(String),
    Boolean(bool),
    Num(N),
    Date(DateTime),
    /// A signed duration in seconds.
    TimeSpan(i64),
    Array(Vec<ExprResult<N>>),
}

impl<N> ExprResult<N> {
    /// Every date held is a day of the calendar.
    pub open spec fn wf(&self) -> bool
        decreases self,
    {
        match self {
            ExprResult::Date(d) => d.wf(),
            ExprResult::Array(items) => forall|i: int| 0 <= i < items@.len() ==> (#[trigger] items@[i]).wf(),
            _ => true,
        }
    }

    /// A value that can be returned and turned into text: not an array.
    pub open spec fn is_final(&self) -> bool {
        !(self is Array)
    }
}

/// The text of a final value other than a number.
pub open spec fn plain_text<N>(v: ExprResult<N>) -> Option<Seq<char>> {
    match v {
        ExprResult::Null => Some(Seq::empty()),
        ExprResult::Str(s) => Some(s@),
        ExprResult::Boolean(b) => Some(if b { "true"@ } else { "false"@ }),
        ExprResult::Date(d) => Some(date_text(d)),
        ExprResult::TimeSpan(s) => Some(int_digits(s as int)),
        _ => None,
    }
}

pub open spec fn not_final_message() -> Seq<char> {
    "Can't change this expression to string"@
}

/// Turns a final value into text: nothing for `Null`, `true` or `false`,
/// dates as `YYYY-MM-DD HH:MM:SS`, time spans as signed seconds. An array
/// is refused.
pub fn result_to_string<N: Number>(v: &ExprResult<N>) -> (r: Result<String, String>)
    ensures
        v is Num ==> r is Ok,
        v is Array ==> (r matches Err(m) && m@ == not_final_message()),
        plain_text(*v) matches Some(t) ==> r matches Ok(s) && s@ == t,
{
    match v {
        ExprResult::Null => Ok(String::new()),
        ExprResult::Str(s) => Ok(s.clone()),
        ExprResult::Boolean(b) => {
            let mut s = String::new();
            if *b {
                push_text(&mut s, "true");
            } else {
                push_text(&mut s, "false");
            }
            Ok(s)
        },
        ExprResult::Num(n) => Ok(n.to_text()),
        ExprResult::Date(d) => Ok(d.to_text()),
        ExprResult::TimeSpan(s) => Ok(int_text(*s)),
        ExprResult::Array(_) => {
            let mut m = String::new();
            push_text(&mut m, "Can't change this expression to string");
            Err(m)
        },
    }
}

/// The text that a message uses for a value; arrays read `Array`.
fn describe<N: Number>(v: &ExprResult<N>) -> (r: String)
    ensures
        plain_text(*v) matches Some(t) ==> r@ == t,
{
    match result_to_string(v) {
        Ok(s) => s,
        Err(_) => {
            let mut s = String::new();
            push_text(&mut s, "Array");
            s
        },
    }
}

/// Structural equality of values, as `==` compares them: same variant and
/// same contents, arrays item by item. Two numbers are left to the number
/// type (see `num_free`).
pub open spec fn deep_equal<N>(l: ExprResult<N>, r: ExprResult<N>) -> bool
    decreases l,
{
    match (l, r) {
        (ExprResult::Null, ExprResult::Null) => true,
        (ExprResult::Str(a), ExprResult::Str(b)) => a@ == b@,
        (ExprResult::Boolean(a), ExprResult::Boolean(b)) => a == b,
        (ExprResult::Date(a), ExprResult::Date(b)) => a == b,
        (ExprResult::TimeSpan(a), ExprResult::TimeSpan(b)) => a == b,
        (ExprResult::Array(x), ExprResult::Array(y)) => x@.len() == y@.len()
            && forall|i: int| 0 <= i < x@.len() ==> deep_equal(#[trigger] x@[i], y@[i]),
        _ => false,
    }
}

/// A value with no number in it.
pub open spec fn num_free<N>(v: ExprResult<N>) -> bool
    decreases v,
{
    match v {
        ExprResult::Num(_) => false,
        ExprResult::Array(x) => forall|i: int| 0 <= i < x@.len() ==> num_free(#[trigger] x@[i]),
        _ => true,
    }
}

/// Whether two values are equal, comparing numbers with the number type.
pub fn values_equal<N: Number>(left: &ExprResult<N>, right: &ExprResult<N>) -> (r: bool)
    ensures
        num_free(*left) || num_free(*right) ==> r == deep_equal(*left, *right),
    decreases left, 0int,
{
    match (left, right) {
        (ExprResult::Null, ExprResult::Null) => true,
        (ExprResult::Str(a), ExprResult::Str(b)) => crate::strings::text_eq(a.as_str(), b.as_str()),
        (ExprResult::Boolean(a), ExprResult::Boolean(b)) => *a == *b,
        (ExprResult::Num(a), ExprResult::Num(b)) => a.same_as(b),
        (ExprResult::Date(a), ExprResult::Date(b)) => *a == *b,
        (ExprResult::TimeSpan(a), ExprResult::TimeSpan(b)) => *a == *b,
        (ExprResult::Array(x), ExprResult::Array(y)) => arrays_equal(x, y),
        _ => false,
    }
}

fn arrays_equal<N: Number>(x: &Vec<ExprResult<N>>, y: &Vec<ExprResult<N>>) -> (r: bool)
    ensures
        (forall|i: int| 0 <= i < x@.len() ==> num_free(#[trigger] x@[i])) || (forall|i: int| 0 <= i < y@.len() ==> num_free(#[trigger] y@[i]))
            ==> r == (x@.len() == y@.len() && forall|i: int| 0 <= i < x@.len() ==> deep_equal(#[trigger] x@[i], y@[i])),
    decreases x, 1int,
{
    if x.len() != y.len() {
        return false;
    }
    let mut i: usize = 0;
    while i < x.len()
        invariant
            x@.len() == y@.len(),
            i <= x@.len(),
            (forall|k: int| 0 <= k < x@.len() ==> num_free(#[trigger] x@[k])) || (forall|k: int| 0 <= k < y@.len() ==> num_free(#[trigger] y@[k]))
                ==> forall|k: int| 0 <= k < i ==> deep_equal(#[trigger] x@[k], y@[k]),
        decreases x@.len() - i,
    {
        if !values_equal(&x[i], &y[i]) {
            return false;
        }
        i = i + 1;
    }
    true
}

/// Equality as `AreEquals` and `In` see it: `Null` equals nothing, itself
/// included; other values are compared structurally (`values_equal`).
pub fn results_are_equals<N: Number>(left: &ExprResult<N>, right: &ExprResult<N>) -> (r: bool)
    ensures
        (left is Null || right is Null) ==> !r,
        !(left is Null) && !(right is Null) && (num_free(*left) || num_free(*right)) ==> r == deep_equal(*left, *right),
{
    if matches!(left, ExprResult::Null) || matches!(right, ExprResult::Null) {
        false
    } else {
        values_equal(left, right)
    }
}


pub open spec fn not_a_message(text: Seq<char>, kind: Seq<char>) -> Seq<char> {
    "'"@ + text + "' is not a "@ + kind
}

fn not_a(text: &str, kind: &str) -> (r: String)
    ensures
        r@ == not_a_message(text@, kind@),
{
    let mut m = String::new();
    push_text(&mut m, "'");
    push_text(&mut m, text);
    push_text(&mut m, "' is not a ");
    push_text(&mut m, kind);
    m
}

/// Coerces a value to a boolean: booleans as they are, a number when it
/// equals 1, a text when it is `true` or `1` in any case with white space
/// around. Anything else is refused.
pub fn value_to_bool<N: Number>(v: &ExprResult<N>) -> (r: Result<bool, String>)
    ensures
        v matches ExprResult::Boolean(b) ==> r == Ok::<bool, String>(*b),
        v matches ExprResult::Str(s) ==> r == Ok::<bool, String>(regex_matches(true_pattern(), true, s@)),
        (v is Null || v is Date || v is TimeSpan) ==> (r matches Err(m) && m@ == not_a_message(plain_text(*v)->Some_0, "boolean"@)),
        v is Array ==> r is Err,
{
    match v {
        ExprResult::Boolean(b) => Ok(*b),
        ExprResult::Num(n) => Ok(n.same_as(&N::from_int(1))),
        ExprResult::Str(s) => {
            let m = build_matcher("^\\s*(true|1)\\s*$", true)?;
            Ok(matcher_is_match(&m, s.as_str()))
        },
        _ => {
            let t = describe(v);
            Err(not_a(t.as_str(), "boolean"))
        },
    }
}

/// Coerces a value to an integer: a number rounded toward zero, a text
/// that spells a signed 64-bit integer. Anything else is refused.
pub fn value_to_int<N: Number>(v: &ExprResult<N>) -> (r: Result<i64, String>)
    ensures
        v matches ExprResult::Str(s) ==> match int_reading(s@) {
            Some(i) => r == Ok::<i64, String>(i as i64),
            None => r matches Err(m) && m@ == not_a_message(s@, "number"@),
        },
        (v is Null || v is Boolean || v is Date || v is TimeSpan) ==> (r matches Err(m) && m@ == not_a_message(plain_text(*v)->Some_0, "number"@)),
        v is Array ==> r is Err,
{
    match v {
        ExprResult::Num(n) => Ok(n.truncated()),
        ExprResult::Str(s) => match parse_i64(s.as_str()) {
            Some(i) => Ok(i),
            None => Err(not_a(s.as_str(), "number")),
        },
        _ => {
            let t = describe(v);
            Err(not_a(t.as_str(), "number"))
        },
    }
}

/// The text that is read as a number: the decimal separator, if given,
/// turned into `.`.
pub open spec fn separated_text(t: Seq<char>, separator: Option<char>) -> Seq<char> {
    match separator {
        Some(c) => with_point(t, c),
        None => t,
    }
}

/// Coerces a value to a number: numbers as they are; anything else is
/// turned into text, the decimal separator (if given) becomes `.`, and the
/// number type reads the text.
pub fn value_to_num<N: Number>(v: &ExprResult<N>, separator: Option<char>) -> (r: Result<N, String>)
    ensures
        v is Num ==> r is Ok,
        v is Array ==> (r matches Err(m) && m@ == not_final_message()),
        plain_text(*v) matches Some(t) ==> (r matches Err(m) ==> m@ == not_a_message(separated_text(t, separator), "number"@)),
{
    match v {
        ExprResult::Num(n) => Ok(n.duplicate()),
        _ => {
            let s = result_to_string(v)?;
            let t = match separator {
                Some(c) => replace_with_point(s.as_str(), c),
                None => s,
            };
            match N::parse_text(t.as_str()) {
                Some(n) => Ok(n),
                None => Err(not_a(t.as_str(), "number")),
            }
        },
    }
}

/// Coerces a value to a date-time: dates as they are; anything else is
/// turned into text and read as an RFC 3339 date-time in UTC.
pub fn value_to_date<N: Number>(v: &ExprResult<N>) -> (r: Result<DateTime, String>)
    requires
        v.wf(),
    ensures
        r matches Ok(d) ==> d.wf(),
        v matches ExprResult::Date(d) ==> r == Ok::<DateTime, String>(*d),
        (!(v is Date) && plain_text(*v) is Some && utc_reading(plain_text(*v)->Some_0) is Some
            && utc_reading(plain_text(*v)->Some_0)->Some_0[6] < NANOS_PER_SECOND)
            ==> (r matches Ok(d) && d.key() == utc_reading(plain_text(*v)->Some_0)->Some_0),
        !(v is Date) && plain_text(*v) is Some ==> (r matches Ok(d) ==> utc_reading(plain_text(*v)->Some_0) == Some(d.key())),
        v is Array ==> r is Err,
{
    match v {
        ExprResult::Date(d) => Ok(*d),
        _ => {
            let s = result_to_string(v)?;
            parse_date(s.as_str())
        },
    }
}

/// The values of identifiers, by name. A later entry for a name hides the
/// earlier ones.
pub struct IdentifierValues {
    entries: Vec<(String, String)>,
}

/// The value of the last entry for `name`.
pub open spec fn lookup_in(entries: Seq<(String, String)>, name: Seq<char>) -> Option<Seq<char>>
    decreases entries.len(),
{
    if entries.len() == 0 {
        None
    } else if entries.last().0@ == name {
        Some(entries.last().1@)
    } else {
        lookup_in(entries.drop_last(), name)
    }
}

impl IdentifierValues {
    /// The value given to `name`, if any.
    pub closed spec fn value_of(&self, name: Seq<char>) -> Option<Seq<char>> {
        lookup_in(self.entries@, name)
    }

    pub fn new() -> (r: IdentifierValues)
        ensures
            forall|k: Seq<char>| r.value_of(k) is None,
    {
        IdentifierValues { entries: Vec::new() }
    }

    /// Gives `name` the value `value`.
    pub fn insert(&mut self, name: String, value: String)
        ensures
            final(self).value_of(name@) == Some(value@),
            forall|k: Seq<char>| k != name@ ==> final(self).value_of(k) == old(self).value_of(k),
    {
        let ghost before = self.entries@;
        self.entries.push((name, value));
        assert(self.entries@.drop_last() =~= before);
    }

    /// The value given to `name`, if any.
    pub fn get(&self, name: &str) -> (r: Option<String>)
        ensures
            match self.value_of(name@) {
                Some(v) => r matches Some(s) && s@ == v,
                None => r is None,
            },
    {
        let mut i: usize = self.entries.len();
        assert(self.entries@.subrange(0, i as int) =~= self.entries@);
        while i > 0
            invariant
                i <= self.entries@.len(),
                lookup_in(self.entries@, name@) == lookup_in(self.entries@.subrange(0, i as int), name@),
            decreases i,
        {
            let ghost pre = self.entries@.subrange(0, i as int);
            assert(pre.drop_last() =~= self.entries@.subrange(0, i - 1));
            let (k, v) = &self.entries[i - 1];
            if crate::strings::text_eq(k.as_str(), name) {
                return Some(v.clone());
            }
            i = i - 1;
        }
        None
    }
}

} // verus!
