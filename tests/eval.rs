use expr_engine::functions::exec_expr;
use expr_engine::parser::parse_expr;
use expr_engine::render::render_expr;
use expr_engine::syntax::{prepare_expr, Expr};
use expr_engine::value::{result_to_string, ExprResult, IdentifierValues, Number};

struct F(f64);

impl Number for F {
    fn parse_text(text: &str) -> Option<Self> {
        text.parse::<f64>().ok().map(F)
    }
    fn from_int(i: i64) -> Self {
        F(i as f64)
    }
    fn to_text(&self) -> String {
        format!("{}", self.0)
    }
    fn duplicate(&self) -> Self {
        F(self.0)
    }
    fn same_as(&self, other: &Self) -> bool {
        self.0 == other.0
    }
    fn less_than(&self, other: &Self) -> bool {
        self.0 < other.0
    }
    fn less_or_equal(&self, other: &Self) -> bool {
        self.0 <= other.0
    }
    fn truncated(&self) -> i64 {
        self.0 as i64
    }
    fn absolute(&self) -> Self {
        F(self.0.abs())
    }
    fn plus(&self, other: &Self) -> Option<Self> {
        Some(F(self.0 + other.0))
    }
    fn minus(&self, other: &Self) -> Option<Self> {
        Some(F(self.0 - other.0))
    }
    fn times(&self, other: &Self) -> Option<Self> {
        Some(F(self.0 * other.0))
    }
    fn divided_by(&self, other: &Self) -> Option<Self> {
        Some(F(self.0 / other.0))
    }
    fn remainder(&self, other: &Self) -> Option<Self> {
        Some(F(self.0 % other.0))
    }
    fn rounded(&self, digits: u32) -> Option<Self> {
        let m = 10f64.powi(digits.min(308) as i32);
        Some(F((self.0 * m).round() / m))
    }
    fn fixed_text(&self, decimals: usize) -> String {
        format!("{:.*}", decimals, self.0)
    }
}

fn run_with(expression: &str, values: &IdentifierValues) -> Result<String, String> {
    let e = prepare_expr(parse_expr(expression)?);
    let v: ExprResult<F> = exec_expr(&e, values)?;
    result_to_string(&v)
}

fn run(expression: &str) -> Result<String, String> {
    run_with(expression, &IdentifierValues::new())
}

fn vals(pairs: &[(&str, &str)]) -> IdentifierValues {
    let mut v = IdentifierValues::new();
    for (k, x) in pairs {
        v.insert(k.to_string(), x.to_string());
    }
    v
}

fn shape(expression: &str) -> String {
    format!("{:?}", parse_expr(expression).unwrap())
}

#[test]
fn parse_parameters() {
    assert_eq!(shape("test( )"), "FunctionCall(\"test\", [])");
}

#[test]
fn execute_one_expression() {
    let values = vals(&[("my", "value")]);
    let result = run_with("FirstNotNull(FirstNotNull(FirstNotNull(my,2,3),2,3),2,3)", &values);
    assert_eq!(result.unwrap(), "value");
}

#[test]
fn parse_boolean() {
    assert_eq!(shape("true"), "Boolean(true)");
    assert_eq!(shape("false"), "Boolean(false)");
}

#[test]
fn parse_str() {
    let cases = [
        ("\"test\"", "test"),
        ("\"test\\\"doublequote\"", "test\"doublequote"),
        ("\"test\\\\slash\"", "test\\slash"),
        ("\"test\\newline\"", "test\newline"),
        ("\"test\\ttab\"", "test\ttab"),
        ("\"test\\rreturn\"", "test\rreturn"),
    ];
    for (text, value) in cases.iter() {
        match parse_expr(text).unwrap() {
            Expr::Str(s) => assert_eq!(s, *value),
            other => panic!("{:?}", other),
        }
    }
}

#[test]
fn parse_num() {
    assert_eq!(shape("1"), "Num(\"1\")");
    assert_eq!(shape("1.2"), "Num(\"1.2\")");
    assert_eq!(shape("-0.42"), "Num(\"-0.42\")");
    assert_eq!(shape("2.5e-3"), "Num(\"2.5e-3\")");
}

#[test]
fn parse_identifier() {
    assert_eq!(shape("id"), "Identifier(\"id\")");
    assert_eq!(shape("@idarobase"), "Identifier(\"idarobase\")");
    assert_eq!(shape("id42"), "Identifier(\"id42\")");
    assert_eq!(shape("_id0"), "Identifier(\"_id0\")");
    assert_eq!(shape("_id1"), "Identifier(\"_id1\")");
}

#[test]
fn parse_array() {
    assert_eq!(shape("[1,2]"), "Array([Num(\"1\"), Num(\"2\")])");
}

#[test]
fn parse_function_call() {
    assert_eq!(shape("test(1,2)"), "FunctionCall(\"test\", [Num(\"1\"), Num(\"2\")])");
    assert_eq!(shape("test()"), "FunctionCall(\"test\", [])");
    assert_eq!(shape("test(aa)"), "FunctionCall(\"test\", [Identifier(\"aa\")])");
}

#[test]
fn parse_complexe_expressions() {
    assert_eq!(
        shape("test([\"value\", 42],2)"),
        "FunctionCall(\"test\", [Array([Str(\"value\"), Num(\"42\")]), Num(\"2\")])"
    );
}

#[test]
fn parse_refuses_trailing_input() {
    assert!(parse_expr("f(1) x").is_err());
    assert!(parse_expr("f(1,").is_err());
    assert!(parse_expr("\"a b\"").is_err());
    assert!(parse_expr("\"a\\q\"").is_err());
    assert!(parse_expr("f (1)").is_err());
    assert_eq!(shape("  f( 1 , 2 )  "), "FunctionCall(\"f\", [Num(\"1\"), Num(\"2\")])");
}

#[test]
fn round_trip_of_literal_shapes() {
    let trees = vec![
        Expr::Boolean(true),
        Expr::Boolean(false),
        Expr::Num("12.5".to_string()),
        Expr::Num("-3e+2".to_string()),
        Expr::Str("a\\b\"c\n\t\r9".to_string()),
        Expr::Identifier("name".to_string()),
        Expr::Identifier("_x1".to_string()),
        Expr::Array(vec![Expr::Num("1".to_string()), Expr::Array(vec![Expr::Boolean(true)]), Expr::Str("s".to_string())]),
        Expr::FunctionCall(
            "f".to_string(),
            vec![
                Expr::FunctionCall("g".to_string(), vec![Expr::Num(".5".to_string())]),
                Expr::Array(vec![]),
                Expr::Identifier("x".to_string()),
            ],
        ),
    ];
    for tree in trees {
        let text = render_expr(&tree);
        let back = parse_expr(&text).unwrap();
        assert_eq!(format!("{:?}", back), format!("{:?}", tree), "{}", text);
    }
    assert_eq!(render_expr(&Expr::Str("q\"".to_string())), "\"q\\\"\"");
}

#[test]
fn arrays_compare_item_by_item() {
    assert_eq!(run("AreEquals([1, \"a\"], [1, \"a\"])").unwrap(), "true");
    assert_eq!(run("AreEquals([], [])").unwrap(), "true");
    assert_eq!(run("AreEquals([1], [2])").unwrap(), "false");
    assert_eq!(run("AreEquals([1], [1, 1])").unwrap(), "false");
}

#[test]
fn binder_resolves_known_names_only() {
    let e = prepare_expr(parse_expr("Unknown(Concat(1))").unwrap());
    assert_eq!(
        format!("{:?}", e),
        "FunctionCall(\"Unknown\", [PreparedFunctionCall(\"Concat\", [Num(\"1\")], Concat)])"
    );
    assert_eq!(run("Unknown(1)").unwrap_err(), "Unable to find the function named 'Unknown'");
}

#[test]
fn identifiers_come_from_the_map() {
    let values = vals(&[("a", "x"), ("a", "y")]);
    assert_eq!(run_with("a", &values).unwrap(), "y");
    assert_eq!(run("b").unwrap_err(), "Unable to find value for identifier named 'b'");
}

#[test]
fn null_is_never_equal() {
    assert_eq!(run("AreEquals(1, FirstNotNull())").unwrap(), "false");
    assert_eq!(run("AreEquals(FirstNotNull(), FirstNotNull())").unwrap(), "false");
    assert_eq!(run("AreEquals(\"a\", \"a\")").unwrap(), "true");
    assert_eq!(run("In(2, 1, 2)").unwrap(), "true");
}

#[test]
fn short_circuits() {
    assert_eq!(run("And(false, Boom())").unwrap(), "false");
    assert_eq!(run("Or(true, Boom())").unwrap(), "true");
    assert_eq!(run("Iif(true, \"x\", Boom())").unwrap(), "x");
    assert_eq!(run("FirstNotNull(\"x\", Boom())").unwrap(), "x");
    assert!(run("And(true, Boom())").is_err());
    assert_eq!(run("Iif(Exact(\"a\", \"a\"), \"yes\", Boom())").unwrap(), "yes");
    assert_eq!(run("And(Not(true), Boom())").unwrap(), "false");
    assert_eq!(run("Or(IsNull(), Boom())").unwrap(), "true");
    assert_eq!(run("AreEquals(\"x\", Split(\"a\", \"b\", \"3\"))").unwrap(), "false");
}

#[test]
fn divide_by_zero_is_not_finite() {
    assert_eq!(run("Divide(1, 0)").unwrap(), "inf");
    assert_eq!(run("Divide(1, 0)").unwrap(), run("Divide(1, 0)").unwrap());
}

#[test]
fn case_and_trim_are_idempotent() {
    let values = vals(&[("s", "  MiXed Ünïcode  ")]);
    for f in ["Trim", "Lower", "Upper"] {
        let once = run_with(&format!("{}(s)", f), &values).unwrap();
        let twice = run_with(&format!("{}({}(s))", f, f), &values).unwrap();
        assert_eq!(once, twice);
    }
    assert_eq!(run_with("Trim(s)", &values).unwrap(), "MiXed Ünïcode");
    assert_eq!(run_with("Lower(s)", &values).unwrap(), "  mixed ünïcode  ");
    assert_eq!(run_with("Upper(s)", &values).unwrap(), "  MIXED ÜNÏCODE  ");
    assert_eq!(run("Capitalize(\"ab\")").unwrap(), "Ab");
}

#[test]
fn find_positions() {
    let values = vals(&[("h", "Hello, World!")]);
    assert_eq!(run_with("Find(\"world\", h)", &values).unwrap(), "8");
    assert_eq!(run_with("Find(\"xyz\", h)", &values).unwrap(), "0");
    assert_eq!(run_with("Find(\"l\", h, 5)", &values).unwrap(), "11");
}

#[test]
fn concat_scenario() {
    let values = vals(&[("a", "Hello, "), ("b", "world")]);
    assert_eq!(run_with("Concat(a, b)", &values).unwrap(), "Hello, world");
}

#[test]
fn if_scenario() {
    assert_eq!(run("If(AreEquals(1, 1), \"yes\", \"no\")").unwrap(), "yes");
}

#[test]
fn fixed_scenario() {
    assert_eq!(run("Fixed(1234.5678, 2, false)").unwrap(), "1,234.57");
    assert_eq!(run("Fixed(1234.5678)").unwrap(), "1234.57");
}

#[test]
fn like_scenario() {
    let values = vals(&[("p", "f%bar"), ("q", "f_bar"), ("x", "x%"), ("y", "%BAR")]);
    assert_eq!(run_with("Like(\"Foobar\", p)", &values).unwrap(), "true");
    assert_eq!(run_with("Like(\"Foobar\", q)", &values).unwrap(), "false");
    assert_eq!(run_with("InLike(\"Foobar\", x, y)", &values).unwrap(), "true");
}

#[test]
fn replace_equals_scenario() {
    let values = vals(&[("v", "Hi!")]);
    assert_eq!(
        run_with("ReplaceEquals(\"hi\", \"other\", \"hello\", \"H\", \"hi\", v)", &values).unwrap(),
        "Hi!"
    );
    assert_eq!(run("ReplaceEquals(\"no\", \"other\", \"hello\", \"H\")").unwrap(), "other");
}

#[test]
fn date_add_months_scenario() {
    let values = vals(&[("d", "2020-01-31T00:00:00Z")]);
    assert_eq!(
        run_with("DateAddMonths(d, 1)", &values).unwrap_err(),
        "Couldn't set 2 as month to the date 2020-02-31 00:00:00"
    );
    assert_eq!(run_with("DateAddMonths(d, 2)", &values).unwrap(), "2020-03-31 00:00:00");
}

#[test]
fn arity_errors() {
    assert_eq!(run("Left(\"a\")").unwrap_err(), "Function Left should have exactly 2 parameters");
    assert_eq!(run("In(1)").unwrap_err(), "Function In should have 2 parameters or more");
    assert_eq!(run("Find(1)").unwrap_err(), "Function Find should have between 2 and 3 parameters");
}

#[test]
fn coercion_errors() {
    let values = vals(&[("d", "2020-01-01T00:00:00Z")]);
    assert_eq!(run("Not(\"maybe\")").unwrap(), "true");
    assert_eq!(run("Not(\"TRUE\")").unwrap(), "false");
    assert_eq!(run("Sum(1, \"x\")").unwrap_err(), "'x' is not a number");
    assert_eq!(run("Left(\"abc\", \"x\")").unwrap_err(), "'x' is not a number");
    assert_eq!(run_with("Not(Date(d))", &values).unwrap_err(), "'2020-01-01 00:00:00' is not a boolean");
}

#[test]
fn string_functions() {
    assert_eq!(run("Len(\"abc\")").unwrap(), "3");
    assert_eq!(run("Split(\"a1b1c\", \"1\", 1)").unwrap(), "b");
    assert_eq!(run("Split(\"a1b\", \"1\", 5)").unwrap(), "");
    assert_eq!(run("Substitute(\"aXbx\", \"x\", \"y\")").unwrap(), "ayby");
    assert_eq!(run("StartsWith(\"Hello\", \"he\")").unwrap(), "true");
    assert_eq!(run("Exact(\"a\", \"A\")").unwrap(), "false");
    assert_eq!(run("NumberValue(\"12c5\", \"c\")").unwrap(), "12.5");
}

#[test]
fn math_functions() {
    assert_eq!(run("Sum(1, 2, 3)").unwrap(), "6");
    assert_eq!(run("Product(2, 3)").unwrap(), "6");
    assert_eq!(run("Subtract(5, 7)").unwrap(), "-2");
    assert_eq!(run("Mod(7, 3)").unwrap(), "1");
    assert_eq!(run("Round(2.345, 2)").unwrap(), "2.35");
    assert_eq!(run("Abs(-4)").unwrap(), "4");
    assert_eq!(run("Gt(2, 1)").unwrap(), "true");
    assert_eq!(run("Ltoe(2, 1)").unwrap(), "false");
}

#[test]
fn clock_functions() {
    let now = run("Year(Now())").unwrap().parse::<i64>().unwrap();
    assert!(now >= 2024);
    assert!(run("Today()").unwrap().ends_with("00:00:00"));
    let secs = run("Time()").unwrap().parse::<i64>().unwrap();
    assert!((0..86400).contains(&secs));
    assert!(run("NowSpecificTimeZone(\"UTC\")").is_ok());
    assert_eq!(
        run("NowSpecificTimeZone(\"Mars\")").unwrap_err(),
        "Unable to find a time zone named 'Mars'"
    );
}

#[test]
fn comparisons_on_identifier_values() {
    let values = vals(&[
        ("a", "2021-03-04T05:00:00Z"),
        ("c", "2020-03-04T05:00:00Z"),
        ("yes", "TRUE"),
        ("t", "Hello"),
        ("k", "hello"),
        ("p", "h%"),
    ]);
    let r = |e: &str| run_with(e, &values).unwrap();
    assert_eq!(r("DateEquals(a, c, yes)"), "true");
    assert_eq!(r("DateGreater(a, Date(c))"), "true");
    assert_eq!(r("ReplaceEquals(t, \"no\", k, \"yes\")"), "yes");
    assert_eq!(r("InLike(t, \"x\", p)"), "true");
    assert_eq!(run_with("DateEquals(a, c, nope)", &values).unwrap_err(), "Unable to find value for identifier named 'nope'");
}

#[test]
fn date_functions() {
    let values = vals(&[
        ("a", "2021-03-04T05:00:00Z"),
        ("b", "2021-03-04T02:00:00Z"),
        ("c", "2020-03-04T05:00:00Z"),
        ("late", "2021-03-04T23:00:00Z"),
        ("f", "dd/MM/yyyy"),
    ]);
    let r = |e: &str| run_with(e, &values).unwrap();
    assert_eq!(r("Year(a)"), "2021");
    assert_eq!(r("DateDiffHours(a, b)"), "3");
    assert_eq!(r("DateDiff(a, b)"), "10800");
    assert_eq!(r("DateEquals(a, c, true)"), "true");
    assert_eq!(r("DateEquals(a, c)"), "false");
    assert_eq!(r("DateLower(c, a)"), "true");
    assert_eq!(r("DateAddHours(late, 2)"), "2021-03-05 01:00:00");
    assert_eq!(r("LocalDate(late)"), "2021-03-05 00:00:00");
    assert_eq!(r("DateFormat(a, f)"), "04/03/2021");
    assert_eq!(r("DateAddYears(a, 2)"), "2023-03-04 05:00:00");
}
