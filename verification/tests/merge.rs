use userjs_updater::error::UpdaterError;
use userjs_updater::prefs::{extract_pref, minify, PreferenceSet, HEADER_LINES};

fn pair(key: &str, value: &str) -> (String, String) {
    (key.to_string(), value.to_string())
}

fn malformed() -> UpdaterError {
    UpdaterError::ParseError("Malformed preference declaration".to_string())
}

fn merged(base: &str, overrides: &str) -> String {
    minify(base.to_string(), overrides.to_string()).unwrap()
}

fn numbered_lines(count: usize) -> Vec<String> {
    (1..=count).map(|i| format!("// banner line {}", i)).collect()
}

#[test]
fn extracts_key_and_value() {
    let line = "user_pref(\"browser.startup.page\", 0);".to_string();
    assert_eq!(extract_pref(&line).unwrap(), pair("browser.startup.page", "0"));
}

#[test]
fn keeps_the_value_as_it_is_written() {
    let line = "user_pref(\"a\", \"x, y, z\"); // note".to_string();
    assert_eq!(extract_pref(&line).unwrap(), pair("a", "\"x, y, z\""));
}

#[test]
fn the_value_ends_at_the_first_closing_parenthesis() {
    let line = "user_pref(\"a\", f(1, g(2)));".to_string();
    assert_eq!(extract_pref(&line).unwrap(), pair("a", "f(1, g(2"));
}

#[test]
fn strips_white_space_around_key_and_value() {
    let line = "user_pref( \t\"a.b\"  ,   true \t ); ".to_string();
    assert_eq!(extract_pref(&line).unwrap(), pair("a.b", "true"));
}

#[test]
fn strips_white_space_outside_ascii() {
    let line = "user_pref(\u{00a0}\"k\"\u{3000},\u{2003}1\u{2028})".to_string();
    assert_eq!(extract_pref(&line).unwrap(), pair("k", "1"));
}

#[test]
fn strips_quotes_and_white_space_in_any_order_around_the_key() {
    let line = "user_pref(\" \"\" a b \" \" , 1)".to_string();
    assert_eq!(extract_pref(&line).unwrap(), pair("a b", "1"));
}

#[test]
fn keeps_a_quote_inside_the_key() {
    let line = "user_pref(\"a\"b\", 1);".to_string();
    assert_eq!(extract_pref(&line).unwrap(), pair("a\"b", "1"));
}

#[test]
fn keeps_the_quotes_of_the_value() {
    let line = "user_pref(a, \"\");".to_string();
    assert_eq!(extract_pref(&line).unwrap(), pair("a", "\"\""));
}

#[test]
fn accepts_an_empty_key_and_an_empty_value() {
    let line = "user_pref(\"\",)".to_string();
    assert_eq!(extract_pref(&line).unwrap(), pair("", ""));
}

#[test]
fn rejects_a_declaration_without_a_comma() {
    let line = "user_pref(\"a.b\" true);".to_string();
    assert_eq!(extract_pref(&line).unwrap_err(), malformed());
}

#[test]
fn rejects_a_comma_behind_the_closing_parenthesis() {
    let line = "user_pref(\"a.b\"), true;".to_string();
    assert_eq!(extract_pref(&line).unwrap_err(), malformed());
}

#[test]
fn rejects_a_declaration_without_a_closing_parenthesis() {
    let line = "user_pref(\"a.b\", true;".to_string();
    assert_eq!(extract_pref(&line).unwrap_err(), malformed());
}

#[test]
fn rejects_a_line_that_is_no_declaration() {
    assert_eq!(extract_pref(&"// user_pref(\"a\", 1);".to_string()).unwrap_err(), malformed());
    assert_eq!(extract_pref(&" user_pref(\"a\", 1);".to_string()).unwrap_err(), malformed());
    assert_eq!(extract_pref(&"user_pref".to_string()).unwrap_err(), malformed());
    assert_eq!(extract_pref(&String::new()).unwrap_err(), malformed());
}

#[test]
fn merges_the_overrides_into_the_base() {
    let base = "/* banner */\nuser_pref(\"a.b\", true);\nuser_pref(\"c.d\", 1);\n";
    let overrides = "user_pref(\"c.d\", 2);\nuser_pref(\"e.f\", \"x\");\n";
    let expected = "/* banner */\nuser_pref(\"a.b\", true);\nuser_pref(\"c.d\", 1);\n\n\
                    user_pref(\"a.b\", true);\nuser_pref(\"c.d\", 2);\nuser_pref(\"e.f\", \"x\");";
    assert_eq!(merged(base, overrides), expected);
}

#[test]
fn keeps_the_first_lines_of_the_base_as_the_banner() {
    let mut lines = numbered_lines(HEADER_LINES + 4);
    lines.push("user_pref(\"a\", 1);".to_string());
    lines.push("// a comment that is dropped".to_string());
    let base = lines.join("\n") + "\n";
    let banner = lines[..HEADER_LINES].join("\n");
    let out = merged(&base, "");
    assert_eq!(HEADER_LINES, 76);
    assert!(out.starts_with(&banner));
    assert!(base.starts_with(&banner));
    assert_eq!(out, banner + "\n\nuser_pref(\"a\", 1);");
}

#[test]
fn a_short_base_is_all_banner() {
    let base = "one\ntwo\nthree";
    assert_eq!(merged(base, "user_pref(\"k\", v);"), "one\ntwo\nthree\n\nuser_pref(\"k\", v);");
}

#[test]
fn declarations_inside_the_banner_count_too() {
    let base = "user_pref(\"in.banner\", 1);\n// text\n";
    let out = merged(base, "user_pref(\"in.banner\", 2);");
    assert_eq!(out, "user_pref(\"in.banner\", 1);\n// text\n\nuser_pref(\"in.banner\", 2);");
}

#[test]
fn the_override_wins_for_a_key_of_both() {
    let out = merged("user_pref(\"k\", \"base\");\n", "user_pref(\"k\", \"mine\");\n");
    assert!(out.ends_with("\n\nuser_pref(\"k\", \"mine\");"));
}

#[test]
fn the_last_of_two_overrides_wins() {
    let overrides = "user_pref(\"k\", 1);\nuser_pref(\"k\", 2);\nuser_pref(\"k\", 3);\n";
    let out = merged("// none\n", overrides);
    assert_eq!(out, "// none\n\nuser_pref(\"k\", 3);");
}

#[test]
fn keys_stay_in_the_order_of_their_first_appearance() {
    let base = "user_pref(\"b\", 1);\nuser_pref(\"a\", 1);\nuser_pref(\"b\", 2);\n";
    let overrides = "user_pref(\"z\", 9);\nuser_pref(\"a\", 5);\nuser_pref(\"c\", 7);\n";
    let out = merged(base, overrides);
    let body = out.split("\n\n").nth(1).unwrap();
    assert_eq!(
        body,
        "user_pref(\"b\", 2);\nuser_pref(\"a\", 5);\nuser_pref(\"z\", 9);\nuser_pref(\"c\", 7);"
    );
}

#[test]
fn keys_of_the_base_alone_are_kept_and_keys_of_the_overrides_alone_are_added() {
    let out = merged("user_pref(\"only.base\", 1);\n", "user_pref(\"only.mine\", 2);\n");
    let body = out.split("\n\n").nth(1).unwrap();
    assert_eq!(body, "user_pref(\"only.base\", 1);\nuser_pref(\"only.mine\", 2);");
}

#[test]
fn empty_overrides_reproduce_the_declarations_of_the_base() {
    let base = "// top\nuser_pref(\"a\", 1);\n\n// between\nuser_pref(\"b\", \"two\");\n";
    let out = merged(base, "");
    assert_eq!(
        out,
        "// top\nuser_pref(\"a\", 1);\n\n// between\nuser_pref(\"b\", \"two\");\n\n\
         user_pref(\"a\", 1);\nuser_pref(\"b\", \"two\");"
    );
}

#[test]
fn a_base_without_declarations_gives_the_banner_and_an_empty_section() {
    assert_eq!(merged("// one\n// two\n", ""), "// one\n// two\n\n");
    assert_eq!(merged("", ""), "\n\n");
}

#[test]
fn other_lines_of_the_overrides_are_dropped() {
    let overrides = "// mine\n\n  user_pref(\"indented\", 1);\nuser_pref(\"k\", 1);\n/* end */";
    let out = merged("// b\n", overrides);
    assert_eq!(out, "// b\n\nuser_pref(\"k\", 1);");
}

#[test]
fn declarations_are_written_in_one_form() {
    let out = merged("", "user_pref(  k  ,1 ) ;; trailing\n");
    assert_eq!(out, "\n\nuser_pref(\"k\", 1);");
}

#[test]
fn lines_may_end_with_carriage_return_and_line_feed() {
    let out = merged("// a\r\n// b\r\nuser_pref(\"k\", 1);\r\n", "user_pref(\"m\", 2);\r\n");
    assert_eq!(
        out,
        "// a\n// b\nuser_pref(\"k\", 1);\n\nuser_pref(\"k\", 1);\nuser_pref(\"m\", 2);"
    );
}

#[test]
fn only_one_carriage_return_is_taken_from_a_line() {
    assert_eq!(merged("a\r\r\nb\r", ""), "a\r\nb\r\n\n");
}

#[test]
fn a_malformed_declaration_of_the_base_fails_the_merge() {
    let r = minify("user_pref(\"a\" 1);\n".to_string(), String::new());
    assert_eq!(r.unwrap_err(), malformed());
}

#[test]
fn a_malformed_declaration_of_the_overrides_fails_the_merge() {
    let r = minify("user_pref(\"a\", 1);\n".to_string(), "user_pref(\"b\", 2;\n".to_string());
    assert_eq!(r.unwrap_err(), malformed());
}

#[test]
fn what_a_merge_writes_is_read_back_as_it_was() {
    let out = merged("", "user_pref( \"a\" , f(1, 2 );\nuser_pref(\"b\", \"x\");\n");
    let lines: Vec<&str> = out.lines().skip(2).collect();
    assert_eq!(lines.len(), 2);
    assert_eq!(extract_pref(&lines[0].to_string()).unwrap(), pair("a", "f(1, 2"));
    assert_eq!(extract_pref(&lines[1].to_string()).unwrap(), pair("b", "\"x\""));
    let again = merged("", &lines.join("\n"));
    assert_eq!(again, out);
}

#[test]
fn a_set_holds_each_key_once() {
    let mut set = PreferenceSet::new();
    assert_eq!(set.len(), 0);
    set.insert("a".to_string(), "1".to_string());
    set.insert("b".to_string(), "2".to_string());
    set.insert("a".to_string(), "3".to_string());
    assert_eq!(set.len(), 2);
    assert_eq!(set.get(&"a".to_string()), Some(&"3".to_string()));
    assert_eq!(set.get(&"b".to_string()), Some(&"2".to_string()));
    assert_eq!(set.get(&"c".to_string()), None);
    assert_eq!(set.entry(0).key, "a");
    assert_eq!(set.entry(0).value, "3");
    assert_eq!(set.entry(1).key, "b");
    assert_eq!(set.render(), "user_pref(\"a\", 3);\nuser_pref(\"b\", 2);");
}

#[test]
fn an_empty_set_renders_as_nothing() {
    assert_eq!(PreferenceSet::new().render(), "");
}
