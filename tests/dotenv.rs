use envrun::dotenv::{parse_dotenv, parse_line, Line};

fn assignment(line: &str) -> (String, String) {
    match parse_line(line) {
        Line::Assign(a) => (a.key, a.value),
        _ => panic!("no assignment in {:?}", line),
    }
}

#[test]
fn splits_on_first_equals_only() {
    assert_eq!(assignment("FOO=bar=baz"), ("FOO".to_string(), "bar=baz".to_string()));
}

#[test]
fn comment_and_blank_lines_assign_nothing() {
    assert!(matches!(parse_line("  # comment\n"), Line::Comment));
    assert!(matches!(parse_line("\n"), Line::Blank));
    assert!(matches!(parse_line(""), Line::Blank));
    assert!(matches!(parse_line(" \t \r"), Line::Blank));
    let parsed = parse_dotenv("  # comment\n\n");
    assert!(parsed.assignments.is_empty());
    assert!(parsed.malformed.is_empty());
}

#[test]
fn key_and_value_are_trimmed() {
    assert_eq!(
        assignment("  KEY  =  value with spaces  \r"),
        ("KEY".to_string(), "value with spaces".to_string())
    );
    assert_eq!(assignment("\u{3000}K=V\u{a0}"), ("K".to_string(), "V".to_string()));
}

#[test]
fn empty_key_or_value_is_kept() {
    assert_eq!(assignment("=v"), ("".to_string(), "v".to_string()));
    assert_eq!(assignment("K="), ("K".to_string(), "".to_string()));
}

#[test]
fn no_quote_or_export_handling() {
    assert_eq!(assignment("export A=\"x\""), ("export A".to_string(), "\"x\"".to_string()));
    assert_eq!(assignment("A=#not a comment"), ("A".to_string(), "#not a comment".to_string()));
}

#[test]
fn line_without_equals_is_malformed() {
    assert!(matches!(parse_line("NOEQUALS"), Line::Malformed));
}

#[test]
fn parses_a_whole_file_in_order() {
    let parsed = parse_dotenv("A=1\r\n# c\n\nB = 2\nbad\nC=3");
    let pairs: Vec<(String, String)> =
        parsed.assignments.into_iter().map(|a| (a.key, a.value)).collect();
    assert_eq!(
        pairs,
        vec![
            ("A".to_string(), "1".to_string()),
            ("B".to_string(), "2".to_string()),
            ("C".to_string(), "3".to_string()),
        ]
    );
    assert_eq!(parsed.malformed, vec![4]);
}

#[test]
fn empty_file_and_trailing_newline() {
    let parsed = parse_dotenv("");
    assert!(parsed.assignments.is_empty());
    let parsed = parse_dotenv("K=V\n");
    assert_eq!(parsed.assignments.len(), 1);
    assert_eq!(parsed.assignments[0].key, "K");
    assert_eq!(parsed.assignments[0].value, "V");
    assert!(parsed.malformed.is_empty());
}
