use paper_cli::line_reader::hinter::{starts_with, Hinter};
use paper_cli::line_reader::line::Line;

fn line_with(text: &str) -> Line {
    let mut line = Line::new();
    line.set(text);
    line
}

fn two_hints() -> Hinter {
    let mut hinter = Hinter::new();
    hinter.add("get <key>");
    hinter.add("set <key> <value> [ttl]");
    hinter
}

#[test]
fn full_hint_is_rest_of_matching_template() {
    let hinter = two_hints();
    assert_eq!(hinter.get_full_hint(&line_with("ge")), Some("t <key>"));
    assert_eq!(hinter.get_full_hint(&line_with("set <k")), Some("ey> <value> [ttl]"));
}

#[test]
fn no_hint_for_less_than_two_characters() {
    let hinter = two_hints();
    assert_eq!(hinter.get_full_hint(&line_with("g")), None);
    assert_eq!(hinter.get_full_hint(&line_with("")), None);
    assert_eq!(hinter.get_partial_hint(&line_with("g")), None);
}

#[test]
fn no_hint_without_matching_template() {
    let hinter = two_hints();
    assert_eq!(hinter.get_full_hint(&line_with("de")), None);
    assert_eq!(hinter.get_full_hint(&line_with("get  ")), None);
    assert_eq!(hinter.get_partial_hint(&line_with("xy")), None);
}

#[test]
fn no_hint_for_a_whole_template() {
    let hinter = two_hints();
    assert_eq!(hinter.get_full_hint(&line_with("get <key>")), None);
    assert_eq!(hinter.get_full_hint(&line_with("get <key> more")), None);
}

#[test]
fn no_hint_without_templates() {
    let hinter = Hinter::new();
    assert_eq!(hinter.get_full_hint(&line_with("ge")), None);
    assert!(hinter.hints().is_empty());
}

#[test]
fn first_registered_template_wins() {
    let mut hinter = Hinter::new();
    hinter.add("size <key>");
    hinter.add("set <key> <value> [ttl]");
    hinter.add("stats");
    assert_eq!(hinter.get_full_hint(&line_with("s")), None);
    assert_eq!(hinter.get_full_hint(&line_with("se")), Some("t <key> <value> [ttl]"));
    assert_eq!(hinter.get_full_hint(&line_with("si")), Some("ze <key>"));
    let mut other = Hinter::new();
    other.add("stat");
    other.add("stats");
    assert_eq!(other.get_full_hint(&line_with("st")), Some("at"));
    assert_eq!(other.get_full_hint(&line_with("stat")), Some("s"));
    assert_eq!(other.hints(), &["stat", "stats"]);
}

#[test]
fn text_is_matched_without_regard_to_case() {
    let hinter = two_hints();
    assert_eq!(hinter.get_full_hint(&line_with("GE")), Some("t <key>"));
    assert_eq!(hinter.get_full_hint(&line_with("Set <K")), Some("ey> <value> [ttl]"));
}

#[test]
fn partial_hint_is_hint_up_to_first_space() {
    let hinter = two_hints();
    assert_eq!(hinter.get_partial_hint(&line_with("ge")), Some("t"));
    assert_eq!(hinter.get_partial_hint(&line_with("get")), Some(""));
    assert_eq!(hinter.get_partial_hint(&line_with("get ")), Some("<key>"));
    assert_eq!(hinter.get_partial_hint(&line_with("set <key> ")), Some("<value>"));
    assert_eq!(hinter.get_partial_hint(&line_with("set <key> <value> [t")), Some("tl]"));
}

#[test]
fn starts_with_compares_character_by_character() {
    let text: Vec<char> = "get <key>".chars().collect();
    let yes: Vec<char> = "get".chars().collect();
    let no: Vec<char> = "gez".chars().collect();
    let long: Vec<char> = "get <key> and more".chars().collect();
    let none: Vec<char> = Vec::new();
    assert!(starts_with(&text, &yes));
    assert!(!starts_with(&text, &no));
    assert!(!starts_with(&text, &long));
    assert!(starts_with(&text, &none));
    assert!(starts_with(&text, &text));
}
