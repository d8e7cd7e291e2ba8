use expr_engine::dotnet::dotnet_format_to_strptime_format;
use expr_engine::like::like_pattern_to_regex_pattern;

#[test]
fn test_dotnet_format_to_strptime_format() {
    assert_eq!(
        dotnet_format_to_strptime_format("yyyy-MM-dd HH:mm:ss.fff"),
        "%Y-%m-%d %H:%M:%S.%3f"
    );
}

#[test]
fn dotnet_long_tokens_win_over_short_ones() {
    assert_eq!(dotnet_format_to_strptime_format("dddd d MMMM yy"), "%A %e %B %y");
    assert_eq!(dotnet_format_to_strptime_format("hh:m tt zzz"), "%I:%M %P %:z");
}

#[test]
fn dotnet_repeated_tokens_are_all_rewritten() {
    assert_eq!(dotnet_format_to_strptime_format("HH:mm-HH:mm"), "%H:%M-%H:%M");
    assert_eq!(dotnet_format_to_strptime_format("m:mm"), "%M:%M");
    assert_eq!(dotnet_format_to_strptime_format("dd/dd"), "%d/%d");
}

#[test]
fn dotnet_literals_pass_through() {
    assert_eq!(dotnet_format_to_strptime_format("[ / ]"), "[ / ]");
}

#[test]
fn test_like_pattern_to_regex_pattern() {
    let rows = [
        ("abcd", "^abcd$"),
        ("a_cd", "^a.{1}cd$"),
        ("ab%d", "^ab.*d$"),
        ("ab%%cd", "^ab%cd$"),
        ("_abc", "^.{1}abc$"),
        ("%abc", "^.*abc$"),
        ("def_", "^def.{1}$"),
        ("def%", "^def.*$"),
        ("_O__%%___%%%O%", "^.{1}O_%_.{1}%.*O.*$"),
    ];
    for (input, output) in rows.iter() {
        assert_eq!(like_pattern_to_regex_pattern(input), *output, "pattern {}", input);
    }
}

#[test]
fn like_empty_pattern() {
    assert_eq!(like_pattern_to_regex_pattern(""), "^$");
}
