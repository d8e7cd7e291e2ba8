//! How many arguments each built-in function takes, and the messages for
//! calls that give another number.
use vstd::prelude::*;
use crate::numtext::{nat_digits, nat_text};
use crate::strings::push_text;
use crate::syntax::Builtin;

verus! {

/// A constraint on the number of arguments.
#[derive(Clone, Copy, PartialEq, Eq, Structural, Debug)]
pub enum Arity {
    Any,
    Exactly(usize),
    AtLeast(usize),
    Between(usize, usize),
    /// At least this many, and an even number.
    Pairs(usize),
}

pub open spec fn arity_rule(b: Builtin) -> Arity {
    match b {
        Builtin::IsNull => Arity::Between(0, 1),
        Builtin::AreEquals => Arity::Exactly(2),
        Builtin::In => Arity::AtLeast(2),
        Builtin::InLike => Arity::AtLeast(2),
        Builtin::IsLike => Arity::Exactly(2),
        Builtin::FirstNotNull => Arity::Any,
        Builtin::Concat => Arity::Any,
        Builtin::Exact => Arity::Exactly(2),
        Builtin::Find => Arity::Between(2, 3),
        Builtin::Substitute => Arity::Exactly(3),
        Builtin::Fixed => Arity::Between(1, 3),
        Builtin::Left => Arity::Exactly(2),
        Builtin::Right => Arity::Exactly(2),
        Builtin::Mid => Arity::Exactly(3),
        Builtin::Len => Arity::Exactly(1),
        Builtin::Lower => Arity::Exactly(1),
        Builtin::Upper => Arity::Exactly(1),
        Builtin::Trim => Arity::Exactly(1),
        Builtin::FirstWord => Arity::Exactly(1),
        Builtin::FirstSentence => Arity::Exactly(1),
        Builtin::Capitalize => Arity::Exactly(1),
        Builtin::Split => Arity::Exactly(3),
        Builtin::NumberValue => Arity::Between(1, 2),
        Builtin::Text => Arity::Exactly(1),
        Builtin::StartsWith => Arity::Exactly(2),
        Builtin::EndsWith => Arity::Exactly(2),
        Builtin::ReplaceEquals => Arity::Pairs(4),
        Builtin::ReplaceLike => Arity::Pairs(4),
        Builtin::And => Arity::Any,
        Builtin::Or => Arity::Any,
        Builtin::Not => Arity::Exactly(1),
        Builtin::Xor => Arity::Exactly(2),
        Builtin::Iif => Arity::Exactly(3),
        Builtin::Abs => Arity::Exactly(1),
        Builtin::Product => Arity::Any,
        Builtin::Sum => Arity::Any,
        Builtin::Divide => Arity::Exactly(2),
        Builtin::Subtract => Arity::Exactly(2),
        Builtin::Mod => Arity::Exactly(2),
        Builtin::Round => Arity::Exactly(2),
        Builtin::GreaterThan => Arity::Exactly(2),
        Builtin::LowerThan => Arity::Exactly(2),
        Builtin::GreaterThanOrEqual => Arity::Exactly(2),
        Builtin::LowerThanOrEqual => Arity::Exactly(2),
        Builtin::Date => Arity::Exactly(1),
        Builtin::Now => Arity::Exactly(0),
        Builtin::Year => Arity::Exactly(1),
        Builtin::Month => Arity::Exactly(1),
        Builtin::Day => Arity::Exactly(1),
        Builtin::DateDiff => Arity::Exactly(2),
        Builtin::DateDiffHours => Arity::Exactly(2),
        Builtin::DateDiffDays => Arity::Exactly(2),
        Builtin::DateDiffMonths => Arity::Exactly(2),
        Builtin::DateEquals => Arity::Between(2, 8),
        Builtin::DateNotEquals => Arity::Between(2, 8),
        Builtin::DateLower => Arity::Between(2, 8),
        Builtin::DateLowerOrEquals => Arity::Between(2, 8),
        Builtin::DateGreater => Arity::Between(2, 8),
        Builtin::DateGreaterOrEquals => Arity::Between(2, 8),
        Builtin::DateAddHours => Arity::Exactly(2),
        Builtin::DateAddDays => Arity::Exactly(2),
        Builtin::DateAddMonths => Arity::Exactly(2),
        Builtin::DateAddYears => Arity::Exactly(2),
        Builtin::LocalDate => Arity::Between(1, 2),
        Builtin::DateFormat => Arity::Between(1, 2),
        Builtin::NowSpecificTimeZone => Arity::Between(0, 1),
        Builtin::Today => Arity::Exactly(0),
        Builtin::Time => Arity::Exactly(0),
    }
}

/// The name that messages give a built-in.
pub open spec fn builtin_name(b: Builtin) -> Seq<char> {
    match b {
        Builtin::IsNull => "IsNull"@,
        Builtin::AreEquals => "AreEquals"@,
        Builtin::In => "In"@,
        Builtin::InLike => "InLike"@,
        Builtin::IsLike => "IsLike"@,
        Builtin::FirstNotNull => "FirstNotNull"@,
        Builtin::Concat => "Concat"@,
        Builtin::Exact => "Exact"@,
        Builtin::Find => "Find"@,
        Builtin::Substitute => "Substitute"@,
        Builtin::Fixed => "Fixed"@,
        Builtin::Left => "Left"@,
        Builtin::Right => "Right"@,
        Builtin::Mid => "Mid"@,
        Builtin::Len => "Len"@,
        Builtin::Lower => "Lower"@,
        Builtin::Upper => "Upper"@,
        Builtin::Trim => "Trim"@,
        Builtin::FirstWord => "FirstWord"@,
        Builtin::FirstSentence => "FirstSentence"@,
        Builtin::Capitalize => "Capitalize"@,
        Builtin::Split => "Split"@,
        Builtin::NumberValue => "NumberValue"@,
        Builtin::Text => "Text"@,
        Builtin::StartsWith => "StartsWith"@,
        Builtin::EndsWith => "EndsWith"@,
        Builtin::ReplaceEquals => "ReplaceEquals"@,
        Builtin::ReplaceLike => "ReplaceLike"@,
        Builtin::And => "And"@,
        Builtin::Or => "Or"@,
        Builtin::Not => "Not"@,
        Builtin::Xor => "Xor"@,
        Builtin::Iif => "Iif"@,
        Builtin::Abs => "Abs"@,
        Builtin::Product => "Product"@,
        Builtin::Sum => "Sum"@,
        Builtin::Divide => "Divide"@,
        Builtin::Subtract => "Subtract"@,
        Builtin::Mod => "Mod"@,
        Builtin::Round => "Round"@,
        Builtin::GreaterThan => "GreaterThan"@,
        Builtin::LowerThan => "LowerThan"@,
        Builtin::GreaterThanOrEqual => "GreaterThanOrEqual"@,
        Builtin::LowerThanOrEqual => "LowerThanOrEqual"@,
        Builtin::Date => "Date"@,
        Builtin::Now => "Now"@,
        Builtin::Year => "Year"@,
        Builtin::Month => "Month"@,
        Builtin::Day => "Day"@,
        Builtin::DateDiff => "DateDiff"@,
        Builtin::DateDiffHours => "DateDiffHours"@,
        Builtin::DateDiffDays => "DateDiffDays"@,
        Builtin::DateDiffMonths => "DateDiffMonths"@,
        Builtin::DateEquals => "DateEquals"@,
        Builtin::DateNotEquals => "DateNotEquals"@,
        Builtin::DateLower => "DateLower"@,
        Builtin::DateLowerOrEquals => "DateLowerOrEquals"@,
        Builtin::DateGreater => "DateGreater"@,
        Builtin::DateGreaterOrEquals => "DateGreaterOrEquals"@,
        Builtin::DateAddHours => "DateAddHours"@,
        Builtin::DateAddDays => "DateAddDays"@,
        Builtin::DateAddMonths => "DateAddMonths"@,
        Builtin::DateAddYears => "DateAddYears"@,
        Builtin::LocalDate => "LocalDate"@,
        Builtin::DateFormat => "DateFormat"@,
        Builtin::NowSpecificTimeZone => "NowSpecificTimeZone"@,
        Builtin::Today => "Today"@,
        Builtin::Time => "Time"@,
    }
}

pub fn arity_rule_of(b: Builtin) -> (r: Arity)
    ensures
        r == arity_rule(b),
{
    match b {
        Builtin::IsNull => Arity::Between(0, 1),
        Builtin::AreEquals => Arity::Exactly(2),
        Builtin::In => Arity::AtLeast(2),
        Builtin::InLike => Arity::AtLeast(2),
        Builtin::IsLike => Arity::Exactly(2),
        Builtin::FirstNotNull => Arity::Any,
        Builtin::Concat => Arity::Any,
        Builtin::Exact => Arity::Exactly(2),
        Builtin::Find => Arity::Between(2, 3),
        Builtin::Substitute => Arity::Exactly(3),
        Builtin::Fixed => Arity::Between(1, 3),
        Builtin::Left => Arity::Exactly(2),
        Builtin::Right => Arity::Exactly(2),
        Builtin::Mid => Arity::Exactly(3),
        Builtin::Len => Arity::Exactly(1),
        Builtin::Lower => Arity::Exactly(1),
        Builtin::Upper => Arity::Exactly(1),
        Builtin::Trim => Arity::Exactly(1),
        Builtin::FirstWord => Arity::Exactly(1),
        Builtin::FirstSentence => Arity::Exactly(1),
        Builtin::Capitalize => Arity::Exactly(1),
        Builtin::Split => Arity::Exactly(3),
        Builtin::NumberValue => Arity::Between(1, 2),
        Builtin::Text => Arity::Exactly(1),
        Builtin::StartsWith => Arity::Exactly(2),
        Builtin::EndsWith => Arity::Exactly(2),
        Builtin::ReplaceEquals => Arity::Pairs(4),
        Builtin::ReplaceLike => Arity::Pairs(4),
        Builtin::And => Arity::Any,
        Builtin::Or => Arity::Any,
        Builtin::Not => Arity::Exactly(1),
        Builtin::Xor => Arity::Exactly(2),
        Builtin::Iif => Arity::Exactly(3),
        Builtin::Abs => Arity::Exactly(1),
        Builtin::Product => Arity::Any,
        Builtin::Sum => Arity::Any,
        Builtin::Divide => Arity::Exactly(2),
        Builtin::Subtract => Arity::Exactly(2),
        Builtin::Mod => Arity::Exactly(2),
        Builtin::Round => Arity::Exactly(2),
        Builtin::GreaterThan => Arity::Exactly(2),
        Builtin::LowerThan => Arity::Exactly(2),
        Builtin::GreaterThanOrEqual => Arity::Exactly(2),
        Builtin::LowerThanOrEqual => Arity::Exactly(2),
        Builtin::Date => Arity::Exactly(1),
        Builtin::Now => Arity::Exactly(0),
        Builtin::Year => Arity::Exactly(1),
        Builtin::Month => Arity::Exactly(1),
        Builtin::Day => Arity::Exactly(1),
        Builtin::DateDiff => Arity::Exactly(2),
        Builtin::DateDiffHours => Arity::Exactly(2),
        Builtin::DateDiffDays => Arity::Exactly(2),
        Builtin::DateDiffMonths => Arity::Exactly(2),
        Builtin::DateEquals => Arity::Between(2, 8),
        Builtin::DateNotEquals => Arity::Between(2, 8),
        Builtin::DateLower => Arity::Between(2, 8),
        Builtin::DateLowerOrEquals => Arity::Between(2, 8),
        Builtin::DateGreater => Arity::Between(2, 8),
        Builtin::DateGreaterOrEquals => Arity::Between(2, 8),
        Builtin::DateAddHours => Arity::Exactly(2),
        Builtin::DateAddDays => Arity::Exactly(2),
        Builtin::DateAddMonths => Arity::Exactly(2),
        Builtin::DateAddYears => Arity::Exactly(2),
        Builtin::LocalDate => Arity::Between(1, 2),
        Builtin::DateFormat => Arity::Between(1, 2),
        Builtin::NowSpecificTimeZone => Arity::Between(0, 1),
        Builtin::Today => Arity::Exactly(0),
        Builtin::Time => Arity::Exactly(0),
    }
}

pub fn builtin_name_of(b: Builtin) -> (r: &'static str)
    ensures
        r@ == builtin_name(b),
{
    match b {
        Builtin::IsNull => "IsNull",
        Builtin::AreEquals => "AreEquals",
        Builtin::In => "In",
        Builtin::InLike => "InLike",
        Builtin::IsLike => "IsLike",
        Builtin::FirstNotNull => "FirstNotNull",
        Builtin::Concat => "Concat",
        Builtin::Exact => "Exact",
        Builtin::Find => "Find",
        Builtin::Substitute => "Substitute",
        Builtin::Fixed => "Fixed",
        Builtin::Left => "Left",
        Builtin::Right => "Right",
        Builtin::Mid => "Mid",
        Builtin::Len => "Len",
        Builtin::Lower => "Lower",
        Builtin::Upper => "Upper",
        Builtin::Trim => "Trim",
        Builtin::FirstWord => "FirstWord",
        Builtin::FirstSentence => "FirstSentence",
        Builtin::Capitalize => "Capitalize",
        Builtin::Split => "Split",
        Builtin::NumberValue => "NumberValue",
        Builtin::Text => "Text",
        Builtin::StartsWith => "StartsWith",
        Builtin::EndsWith => "EndsWith",
        Builtin::ReplaceEquals => "ReplaceEquals",
        Builtin::ReplaceLike => "ReplaceLike",
        Builtin::And => "And",
        Builtin::Or => "Or",
        Builtin::Not => "Not",
        Builtin::Xor => "Xor",
        Builtin::Iif => "Iif",
        Builtin::Abs => "Abs",
        Builtin::Product => "Product",
        Builtin::Sum => "Sum",
        Builtin::Divide => "Divide",
        Builtin::Subtract => "Subtract",
        Builtin::Mod => "Mod",
        Builtin::Round => "Round",
        Builtin::GreaterThan => "GreaterThan",
        Builtin::LowerThan => "LowerThan",
        Builtin::GreaterThanOrEqual => "GreaterThanOrEqual",
        Builtin::LowerThanOrEqual => "LowerThanOrEqual",
        Builtin::Date => "Date",
        Builtin::Now => "Now",
        Builtin::Year => "Year",
        Builtin::Month => "Month",
        Builtin::Day => "Day",
        Builtin::DateDiff => "DateDiff",
        Builtin::DateDiffHours => "DateDiffHours",
        Builtin::DateDiffDays => "DateDiffDays",
        Builtin::DateDiffMonths => "DateDiffMonths",
        Builtin::DateEquals => "DateEquals",
        Builtin::DateNotEquals => "DateNotEquals",
        Builtin::DateLower => "DateLower",
        Builtin::DateLowerOrEquals => "DateLowerOrEquals",
        Builtin::DateGreater => "DateGreater",
        Builtin::DateGreaterOrEquals => "DateGreaterOrEquals",
        Builtin::DateAddHours => "DateAddHours",
        Builtin::DateAddDays => "DateAddDays",
        Builtin::DateAddMonths => "DateAddMonths",
        Builtin::DateAddYears => "DateAddYears",
        Builtin::LocalDate => "LocalDate",
        Builtin::DateFormat => "DateFormat",
        Builtin::NowSpecificTimeZone => "NowSpecificTimeZone",
        Builtin::Today => "Today",
        Builtin::Time => "Time",
    }
}

/// The message for a call of `b` with `n` arguments, if `n` breaks the rule.
pub open spec fn arity_message(b: Builtin, n: nat) -> Option<Seq<char>> {
    let head = "Function "@ + builtin_name(b);
    match arity_rule(b) {
        Arity::Any => None,
        Arity::Exactly(c) => if n == c {
            None
        } else {
            Some(head + " should have exactly "@ + nat_digits(c as nat) + " parameters"@)
        },
        Arity::AtLeast(c) => if n >= c {
            None
        } else {
            Some(head + " should have "@ + nat_digits(c as nat) + " parameters or more"@)
        },
        Arity::Between(a, c) => if a <= n <= c {
            None
        } else {
            Some(head + " should have between "@ + nat_digits(a as nat) + " and "@ + nat_digits(c as nat) + " parameters"@)
        },
        Arity::Pairs(c) => if n < c {
            Some(head + " should have "@ + nat_digits(c as nat) + " parameters or more"@)
        } else if n % 2 == 1 {
            Some(head + " should have its key/value parameters 2 by 2"@)
        } else {
            None
        },
    }
}

/// Checks the number of arguments of a call; see `arity_message`.
pub fn check_arity(b: Builtin, n: usize) -> (r: Result<(), String>)
    ensures
        match arity_message(b, n as nat) {
            Some(m) => r matches Err(e) && e@ == m,
            None => r is Ok,
        },
{
    let name = builtin_name_of(b);
    let mut m = String::new();
    push_text(&mut m, "Function ");
    push_text(&mut m, name);
    match arity_rule_of(b) {
        Arity::Any => Ok(()),
        Arity::Exactly(c) => {
            if n == c {
                return Ok(());
            }
            push_text(&mut m, " should have exactly ");
            let t = nat_text(c as u64);
            push_text(&mut m, t.as_str());
            push_text(&mut m, " parameters");
            Err(m)
        },
        Arity::AtLeast(c) => {
            if n >= c {
                return Ok(());
            }
            push_text(&mut m, " should have ");
            let t = nat_text(c as u64);
            push_text(&mut m, t.as_str());
            push_text(&mut m, " parameters or more");
            Err(m)
        },
        Arity::Between(a, c) => {
            if a <= n && n <= c {
                return Ok(());
            }
            push_text(&mut m, " should have between ");
            let t = nat_text(a as u64);
            push_text(&mut m, t.as_str());
            push_text(&mut m, " and ");
            let u = nat_text(c as u64);
            push_text(&mut m, u.as_str());
            push_text(&mut m, " parameters");
            Err(m)
        },
        Arity::Pairs(c) => {
            if n < c {
                push_text(&mut m, " should have ");
                let t = nat_text(c as u64);
                push_text(&mut m, t.as_str());
                push_text(&mut m, " parameters or more");
                Err(m)
            } else if n % 2 == 1 {
                push_text(&mut m, " should have its key/value parameters 2 by 2");
                Err(m)
            } else {
                Ok(())
            }
        },
    }
}

} // verus!
