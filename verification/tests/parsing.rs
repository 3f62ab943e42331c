use fretsmart::parser::{verify_data_line, FormatError};
use fretsmart::records::{get_data_file_name, line_matches_filter, list_prefix, DataLine, Selection};
use fretsmart::text::{parse_lenient_uint, split_str, str_eq, str_starts_with};

#[test]
fn parses_notes_record() {
    let r = verify_data_line(&"N,E;F;F#".to_string());
    assert_eq!(
        r,
        Ok(DataLine::Notes(vec!["E".to_string(), "F".to_string(), "F#".to_string()]))
    );
}

#[test]
fn parses_instrument_record() {
    let r = verify_data_line(&"I,guitar".to_string());
    assert_eq!(r, Ok(DataLine::Instrument("guitar".to_string())));
}

#[test]
fn parses_tuning_record() {
    let r = verify_data_line(&"T,guitar,std,0;5;10".to_string());
    assert_eq!(
        r,
        Ok(DataLine::Tuning {
            instrument: "guitar".to_string(),
            name: "std".to_string(),
            formula: vec!["0".to_string(), "5".to_string(), "10".to_string()],
        })
    );
}

#[test]
fn parses_highlight_record() {
    let r = verify_data_line(&"H,S,major,0;2;4".to_string());
    assert_eq!(
        r,
        Ok(DataLine::Highlight {
            h_type: "S".to_string(),
            name: "major".to_string(),
            formula: vec!["0".to_string(), "2".to_string(), "4".to_string()],
        })
    );
}

#[test]
fn rejects_unknown_tag() {
    assert_eq!(
        verify_data_line(&"X,foo".to_string()),
        Err(FormatError { line: "X,foo".to_string() })
    );
    assert_eq!(
        verify_data_line(&"Q,a,b,c".to_string()),
        Err(FormatError { line: "Q,a,b,c".to_string() })
    );
}

#[test]
fn rejects_wrong_arity() {
    assert_eq!(
        verify_data_line(&"N".to_string()),
        Err(FormatError { line: "N".to_string() })
    );
    assert_eq!(
        verify_data_line(&"I,guitar,extra".to_string()),
        Err(FormatError { line: "I,guitar,extra".to_string() })
    );
    assert_eq!(
        verify_data_line(&"T,guitar,std,0;5,extra".to_string()),
        Err(FormatError { line: "T,guitar,std,0;5,extra".to_string() })
    );
}

#[test]
fn parsing_is_idempotent() {
    let line = "T,guitar,drop-d,0;5;10;3;7;0".to_string();
    let first = verify_data_line(&line);
    let second = verify_data_line(&line);
    assert_eq!(first, second);
    let bad = ";;;".to_string();
    assert_eq!(verify_data_line(&bad), verify_data_line(&bad));
}

#[test]
fn splits_on_separator() {
    assert_eq!(split_str("a,b,c", ','), vec!["a", "b", "c"]);
    assert_eq!(split_str("", ','), vec![""]);
    assert_eq!(split_str("a,", ','), vec!["a", ""]);
    assert_eq!(split_str(",a", ','), vec!["", "a"]);
    assert_eq!(split_str("abc", ','), vec!["abc"]);
}

#[test]
fn lenient_numbers() {
    assert_eq!(parse_lenient_uint("7"), 7);
    assert_eq!(parse_lenient_uint("007"), 7);
    assert_eq!(parse_lenient_uint("+5"), 5);
    assert_eq!(parse_lenient_uint(""), 0);
    assert_eq!(parse_lenient_uint("abc"), 0);
    assert_eq!(parse_lenient_uint("-3"), 0);
    assert_eq!(parse_lenient_uint("4x"), 0);
    assert_eq!(parse_lenient_uint("99999999999999999999999999"), 0);
}

#[test]
fn string_helpers() {
    assert!(str_eq("abc", "abc"));
    assert!(!str_eq("abc", "abd"));
    assert!(!str_eq("abc", "ab"));
    assert!(str_starts_with("T,guitar", "T,"));
    assert!(!str_starts_with("I,bass", "T,"));
    assert!(str_starts_with("x", ""));
}

#[test]
fn selection_defaults() {
    let sel = Selection::new();
    assert_eq!(sel.instrument, "guitar");
    assert_eq!(sel.tuning, "std");
    assert_eq!(sel.tuning_note, "E");
    assert_eq!(sel.highlight_type, "S");
    assert_eq!(sel.highlight, "major");
    assert_eq!(sel.highlight_note, "C");
}

#[test]
fn selection_options_override() {
    let mut sel = Selection::new();
    assert!(sel.apply_option("--instrument", "bass"));
    assert!(sel.apply_option("--tuning-note", "D"));
    assert_eq!(sel.instrument, "bass");
    assert_eq!(sel.tuning_note, "D");
    assert_eq!(sel.tuning, "std");
    let before = sel.clone();
    assert!(!sel.apply_option("--bogus", "x"));
    assert_eq!(sel, before);
}

#[test]
fn data_file_name_defaulting() {
    let path = "mine.txt".to_string();
    assert_eq!(get_data_file_name(Some(&path)), "mine.txt");
    assert_eq!(get_data_file_name(None), "data.txt");
}

#[test]
fn list_prefixes() {
    assert_eq!(list_prefix("instruments"), "I,");
    assert_eq!(list_prefix("tunings"), "T,");
    assert_eq!(list_prefix("highlights"), "H,");
    assert_eq!(list_prefix("datafile"), "D");
    assert!(line_matches_filter("I,guitar", "I,"));
    assert!(!line_matches_filter("T,guitar,std,0", "I,"));
    assert!(line_matches_filter("T,guitar,std,0", "D"));
}
