//! Rewriting of .NET date format strings into `strftime` format strings.
use vstd::prelude::*;
use crate::matching::{build_matcher, matcher_replace_all, is_plain_literal, first_occurrence,
    occurs_at, replace_all_literal};

verus! {

/// The rewriting rules, applied in this order, each to every occurrence of
/// its token. Longer tokens come before shorter ones; a token
/// whose replacement would be caught by a later rule goes through a
/// placeholder that a later rule turns into its final form.
pub open spec fn dotnet_rules() -> Seq<(Seq<char>, Seq<char>)> {
    seq![
        (seq!['d', 'd', 'd', 'd'], seq!['%', 'A']),
        (seq!['d', 'd', 'd'], seq!['%', 'a']),
        (seq!['d', 'd'], seq!['%', 'D', 'A', 'Y']),
        (seq!['d'], seq!['%', 'e']),
        (seq!['%', 'D', 'A', 'Y'], seq!['%', 'd']),
        (seq!['f', 'f', 'f', 'f', 'f', 'f', 'f'], seq!['%', '7', 'f']),
        (seq!['f', 'f', 'f', 'f', 'f', 'f'], seq!['%', '6', 'f']),
        (seq!['f', 'f', 'f', 'f', 'f'], seq!['%', '5', 'f']),
        (seq!['f', 'f', 'f', 'f'], seq!['%', '4', 'f']),
        (seq!['f', 'f', 'f'], seq!['%', '3', 'f']),
        (seq!['f', 'f'], seq!['%', '2', 'f']),
        (seq!['F', 'F', 'F', 'F', 'F', 'F', 'F'], seq!['%', '7', 'f']),
        (seq!['F', 'F', 'F', 'F', 'F', 'F'], seq!['%', '6', 'f']),
        (seq!['F', 'F', 'F', 'F', 'F'], seq!['%', '5', 'f']),
        (seq!['F', 'F', 'F', 'F'], seq!['%', '4', 'f']),
        (seq!['F', 'F', 'F'], seq!['%', '3', 'f']),
        (seq!['F', 'F'], seq!['%', '2', 'f']),
        (seq!['F'], seq!['%', '1', 'f']),
        (seq!['h', 'h'], seq!['%', 'I']),
        (seq!['h'], seq!['%', 'l']),
        (seq!['H', 'H'], seq!['%', '_', 'O', 'U', 'R', 'S']),
        (seq!['H'], seq!['%', 'k']),
        (seq!['%', '_', 'O', 'U', 'R', 'S'], seq!['%', 'H']),
        (seq!['m', 'm'], seq!['%', '_', 'I', 'N', 'U', 'T', 'E']),
        (seq!['m'], seq!['%', '_', 'I', 'N', 'U', 'T', 'E']),
        (seq!['M', 'M', 'M', 'M'], seq!['%', 'B']),
        (seq!['M', 'M', 'M'], seq!['%', 'b']),
        (seq!['M', 'M'], seq!['%', 'm']),
        (seq!['M'], seq!['%', 'm']),
        (seq!['%', '_', 'I', 'N', 'U', 'T', 'E'], seq!['%', 'M']),
        (seq!['s', 's'], seq!['%', 'S']),
        (seq!['s'], seq!['%', 'S']),
        (seq!['t', 't'], seq!['%', 'P']),
        (seq!['t'], seq!['%', 'P']),
        (seq!['y', 'y', 'y', 'y', 'y'], seq!['%', 'Y']),
        (seq!['y', 'y', 'y', 'y'], seq!['%', 'Y']),
        (seq!['y', 'y', 'y'], seq!['%', 'Y']),
        (seq!['y', 'y'], seq!['%', 'Y', 'E', 'A', 'R']),
        (seq!['y'], seq!['%', 'y']),
        (seq!['%', 'Y', 'E', 'A', 'R'], seq!['%', 'y']),
        (seq!['z', 'z', 'z'], seq!['%', ':', '_', 'o', 'n', 'e']),
        (seq!['z', 'z'], seq!['%', '_', 'o', 'n', 'e']),
        (seq!['z'], seq!['%', 'z']),
        (seq!['%', '_', 'o', 'n', 'e'], seq!['%', 'z']),
        (seq!['%', ':', '_', 'o', 'n', 'e'], seq!['%', ':', 'z']),
    ]
}

/// The characters that can start a format token or a placeholder.
pub open spec fn is_format_char(c: char) -> bool {
    c == '%' || c == 'd' || c == 'f' || c == 'F' || c == 'h' || c == 'H' || c == 'm' || c == 'M'
        || c == 's' || c == 't' || c == 'y' || c == 'z'
}

pub open spec fn rule_ok(rule: (Seq<char>, Seq<char>)) -> bool {
    is_plain_literal(rule.0) && is_format_char(rule.0[0])
}

pub open spec fn rules_ok(rules: Seq<(Seq<char>, Seq<char>)>, i: int) -> bool
    decreases rules.len() - i,
{
    i < 0 || i >= rules.len() || (rule_ok(rules[i]) && rules_ok(rules, i + 1))
}

proof fn lemma_rules_ok_all(rules: Seq<(Seq<char>, Seq<char>)>, i: int)
    requires
        0 <= i,
        rules_ok(rules, i),
    ensures
        forall|k: int| i <= k < rules.len() ==> rule_ok(#[trigger] rules[k]),
    decreases rules.len() - i,
{
    if i < rules.len() {
        lemma_rules_ok_all(rules, i + 1);
    }
}

/// Every token of the rules is a short literal of plain characters that
/// starts with a format character.
pub proof fn lemma_rules_plain()
    ensures
        forall|k: int| 0 <= k < dotnet_rules().len() ==> rule_ok(#[trigger] dotnet_rules()[k]),
{
    reveal_with_fuel(rules_ok, 46);
    assert(rules_ok(dotnet_rules(), 0));
    lemma_rules_ok_all(dotnet_rules(), 0);
}

/// The format after the first `k` rules.
pub open spec fn dotnet_rewritten(s: Seq<char>, k: nat) -> Seq<char>
    decreases k,
{
    if k == 0 {
        s
    } else {
        let rule = dotnet_rules()[k - 1];
        replace_all_literal(dotnet_rewritten(s, (k - 1) as nat), rule.0, rule.1)
    }
}

/// A text with none of the characters that start a token.
pub open spec fn no_format_chars(s: Seq<char>) -> bool {
    forall|i: int| 0 <= i < s.len() ==> !is_format_char(#[trigger] s[i])
}

proof fn lemma_no_occurrence(t: Seq<char>, p: Seq<char>, i: int)
    requires
        p.len() > 0,
        is_format_char(p[0]),
        no_format_chars(t),
    ensures
        first_occurrence(t, p, i) is None,
    decreases t.len() + 1 - i,
{
    if !(i < 0 || i + p.len() > t.len()) {
        if occurs_at(t, p, i) {
            assert(t.subrange(i, i + p.len())[0] == t[i]);
        }
        lemma_no_occurrence(t, p, i + 1);
    }
}

/// A format with no token characters passes through unchanged.
pub proof fn lemma_pass_through(s: Seq<char>, k: nat)
    requires
        no_format_chars(s),
        k <= dotnet_rules().len(),
    ensures
        dotnet_rewritten(s, k) == s,
    decreases k,
{
    if k > 0 {
        lemma_pass_through(s, (k - 1) as nat);
        lemma_rules_plain();
        let rule = dotnet_rules()[k - 1];
        assert(rule_ok(rule));
        lemma_no_occurrence(s, rule.0, 0);
    }
}

fn rules_table() -> (r: Vec<(&'static str, &'static str)>)
    ensures
        r@.len() == dotnet_rules().len(),
        forall|i: int| 0 <= i < r@.len() ==> (#[trigger] r@[i]).0@ == dotnet_rules()[i].0 && r@[i].1@ == dotnet_rules()[i].1,
{
    let r = vec![
        ("dddd", "%A"),
        ("ddd", "%a"),
        ("dd", "%DAY"),
        ("d", "%e"),
        ("%DAY", "%d"),
        ("fffffff", "%7f"),
        ("ffffff", "%6f"),
        ("fffff", "%5f"),
        ("ffff", "%4f"),
        ("fff", "%3f"),
        ("ff", "%2f"),
        ("FFFFFFF", "%7f"),
        ("FFFFFF", "%6f"),
        ("FFFFF", "%5f"),
        ("FFFF", "%4f"),
        ("FFF", "%3f"),
        ("FF", "%2f"),
        ("F", "%1f"),
        ("hh", "%I"),
        ("h", "%l"),
        ("HH", "%_OURS"),
        ("H", "%k"),
        ("%_OURS", "%H"),
        ("mm", "%_INUTE"),
        ("m", "%_INUTE"),
        ("MMMM", "%B"),
        ("MMM", "%b"),
        ("MM", "%m"),
        ("M", "%m"),
        ("%_INUTE", "%M"),
        ("ss", "%S"),
        ("s", "%S"),
        ("tt", "%P"),
        ("t", "%P"),
        ("yyyyy", "%Y"),
        ("yyyy", "%Y"),
        ("yyy", "%Y"),
        ("yy", "%YEAR"),
        ("y", "%y"),
        ("%YEAR", "%y"),
        ("zzz", "%:_one"),
        ("zz", "%_one"),
        ("z", "%z"),
        ("%_one", "%z"),
        ("%:_one", "%:z"),
    ];
    proof {
        reveal_strlit("%1f");
        reveal_strlit("%2f");
        reveal_strlit("%3f");
        reveal_strlit("%4f");
        reveal_strlit("%5f");
        reveal_strlit("%6f");
        reveal_strlit("%7f");
        reveal_strlit("%:_one");
        reveal_strlit("%:z");
        reveal_strlit("%A");
        reveal_strlit("%B");
        reveal_strlit("%DAY");
        reveal_strlit("%H");
        reveal_strlit("%I");
        reveal_strlit("%M");
        reveal_strlit("%P");
        reveal_strlit("%S");
        reveal_strlit("%Y");
        reveal_strlit("%YEAR");
        reveal_strlit("%_INUTE");
        reveal_strlit("%_OURS");
        reveal_strlit("%_one");
        reveal_strlit("%a");
        reveal_strlit("%b");
        reveal_strlit("%d");
        reveal_strlit("%e");
        reveal_strlit("%k");
        reveal_strlit("%l");
        reveal_strlit("%m");
        reveal_strlit("%y");
        reveal_strlit("%z");
        reveal_strlit("F");
        reveal_strlit("FF");
        reveal_strlit("FFF");
        reveal_strlit("FFFF");
        reveal_strlit("FFFFF");
        reveal_strlit("FFFFFF");
        reveal_strlit("FFFFFFF");
        reveal_strlit("H");
        reveal_strlit("HH");
        reveal_strlit("M");
        reveal_strlit("MM");
        reveal_strlit("MMM");
        reveal_strlit("MMMM");
        reveal_strlit("d");
        reveal_strlit("dd");
        reveal_strlit("ddd");
        reveal_strlit("dddd");
        reveal_strlit("ff");
        reveal_strlit("fff");
        reveal_strlit("ffff");
        reveal_strlit("fffff");
        reveal_strlit("ffffff");
        reveal_strlit("fffffff");
        reveal_strlit("h");
        reveal_strlit("hh");
        reveal_strlit("m");
        reveal_strlit("mm");
        reveal_strlit("s");
        reveal_strlit("ss");
        reveal_strlit("t");
        reveal_strlit("tt");
        reveal_strlit("y");
        reveal_strlit("yy");
        reveal_strlit("yyy");
        reveal_strlit("yyyy");
        reveal_strlit("yyyyy");
        reveal_strlit("z");
        reveal_strlit("zz");
        reveal_strlit("zzz");
    }
    assert(forall|i: int| 0 <= i < r@.len() ==> (#[trigger] r@[i]).0@ =~= dotnet_rules()[i].0 && r@[i].1@ =~= dotnet_rules()[i].1);
    r
}

/// Rewrites a .NET date format (`yyyy-MM-dd HH:mm:ss.fff`) into the
/// `strftime` form that the date formatter reads (`%Y-%m-%d %H:%M:%S.%3f`):
/// each rule in turn replaces every occurrence of its token, so a token
/// that appears twice (`HH:mm-HH:mm`) is rewritten both times. A format
/// with no token characters passes through unchanged (`lemma_pass_through`).
pub fn dotnet_format_to_strptime_format(dotnet_format: &str) -> (r: String)
    ensures
        r@ == dotnet_rewritten(dotnet_format@, dotnet_rules().len()),
{
    let rules = rules_table();
    proof {
        lemma_rules_plain();
    }
    let mut acc = String::from_str(dotnet_format);
    let mut i: usize = 0;
    while i < rules.len()
        invariant
            i <= rules@.len(),
            rules@.len() == dotnet_rules().len(),
            forall|j: int| 0 <= j < rules@.len() ==> (#[trigger] rules@[j]).0@ == dotnet_rules()[j].0 && rules@[j].1@ == dotnet_rules()[j].1,
            forall|k: int| 0 <= k < dotnet_rules().len() ==> rule_ok(#[trigger] dotnet_rules()[k]),
            acc@ == dotnet_rewritten(dotnet_format@, i as nat),
        decreases rules@.len() - i,
    {
        let (pattern, replacement) = rules[i];
        assert(rule_ok(dotnet_rules()[i as int]));
        match build_matcher(pattern, false) {
            Ok(m) => {
                acc = matcher_replace_all(&m, acc.as_str(), replacement);
            },
            Err(_) => {
                assert(false);
            },
        }
        i = i + 1;
    }
    acc
}

} // verus!
