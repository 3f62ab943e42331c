use fretsmart::fretboard::{contains_note, highlighted_notes, note_at, run_selection};
use fretsmart::records::Selection;
use fretsmart::resolver::{resolve_selection, ResolveError};

fn chromatic_from_e() -> Vec<String> {
    ["E", "F", "F#", "G", "G#", "A", "A#", "B", "C", "C#", "D", "D#"]
        .iter()
        .map(|s| s.to_string())
        .collect()
}

fn standard_stream() -> Vec<String> {
    vec![
        "N,E;F;F#;G;G#;A;A#;B;C;C#;D;D#".to_string(),
        "I,guitar".to_string(),
        "T,guitar,std,0;5;10;3;7;0".to_string(),
        "H,S,major,0;2;4;5;7;9;11".to_string(),
    ]
}

#[test]
fn resolves_standard_selection() {
    let res = resolve_selection(&standard_stream(), &Selection::new()).unwrap();
    assert_eq!(res.notes, chromatic_from_e());
    assert_eq!(res.instrument, "guitar");
    assert_eq!(res.tuning.kind, "guitar");
    assert_eq!(res.tuning.name, "std");
    assert_eq!(res.tuning.formula, vec!["0", "5", "10", "3", "7", "0"]);
    assert_eq!(res.highlight.kind, "S");
    assert_eq!(res.highlight.name, "major");
    assert_eq!(res.highlight.formula, vec!["0", "2", "4", "5", "7", "9", "11"]);
}

#[test]
fn c_major_highlight_set() {
    let notes = chromatic_from_e();
    // C sits at position 8 of the scale rooted on E.
    let formula: Vec<String> = ["0", "2", "4", "5", "7", "9", "11"]
        .iter()
        .map(|s| s.to_string())
        .collect();
    let marked = highlighted_notes(&notes, &formula, 8);
    for n in ["C", "D", "E", "F", "G", "A", "B"] {
        assert!(contains_note(&marked, n), "{n} should be highlighted");
    }
    for n in ["F#", "G#", "A#", "C#", "D#"] {
        assert!(!contains_note(&marked, n), "{n} should not be highlighted");
    }
}

#[test]
fn first_string_open_frets() {
    let notes = chromatic_from_e();
    // First string of the standard tuning: offset 0, tuning root E (position 0).
    assert_eq!(note_at(&notes, 0, 0, 0), "E");
    assert_eq!(note_at(&notes, 0, 0, 1), "F");
    assert_eq!(note_at(&notes, 0, 0, 2), "F#");
}

#[test]
fn fret_24_equals_open_string() {
    let notes = chromatic_from_e();
    for offset in [0usize, 3, 5, 7, 10] {
        assert_eq!(note_at(&notes, offset, 0, 24), note_at(&notes, offset, 0, 0));
        assert_eq!(note_at(&notes, offset, 4, 24), note_at(&notes, offset, 4, 0));
    }
}

#[test]
fn first_note_scale_wins() {
    let mut lines = standard_stream();
    lines.push("N,C;C#;D;D#;E;F;F#;G;G#;A;A#;B".to_string());
    let res = resolve_selection(&lines, &Selection::new()).unwrap();
    assert_eq!(res.notes, chromatic_from_e());
}

#[test]
fn first_matching_tuning_wins() {
    let mut lines = standard_stream();
    lines.push("T,guitar,std,9;9;9;9;9;9".to_string());
    let res = resolve_selection(&lines, &Selection::new()).unwrap();
    assert_eq!(res.tuning.formula, vec!["0", "5", "10", "3", "7", "0"]);
}

#[test]
fn malformed_line_fails_fast() {
    let lines = vec![
        "N,E;F;F#;G;G#;A;A#;B;C;C#;D;D#".to_string(),
        "I,guitar".to_string(),
        "garbage line".to_string(),
        "T,guitar,std,0;5;10;3;7;0".to_string(),
        "H,S,major,0;2;4;5;7;9;11".to_string(),
    ];
    let err = resolve_selection(&lines, &Selection::new()).unwrap_err();
    assert_eq!(err, ResolveError::Format { line: "garbage line".to_string() });
}

#[test]
fn invalid_tuning_note_is_rejected() {
    let mut sel = Selection::new();
    assert!(sel.apply_option("--tuning-note", "H"));
    let err = resolve_selection(&standard_stream(), &sel).unwrap_err();
    assert_eq!(err, ResolveError::InvalidNote { note: "H".to_string() });
}

#[test]
fn invalid_highlight_note_is_rejected() {
    let mut sel = Selection::new();
    assert!(sel.apply_option("--highlight-note", "Z"));
    let err = resolve_selection(&standard_stream(), &sel).unwrap_err();
    assert_eq!(err, ResolveError::InvalidNote { note: "Z".to_string() });
}

#[test]
fn missing_records_are_named() {
    let lines = vec![
        "N,E;F;F#;G;G#;A;A#;B;C;C#;D;D#".to_string(),
        "T,guitar,std,0;5;10;3;7;0".to_string(),
    ];
    let err = resolve_selection(&lines, &Selection::new()).unwrap_err();
    assert_eq!(
        err,
        ResolveError::NotFound { instrument: true, tuning: false, highlight: true }
    );
}

#[test]
fn unmatched_selection_is_not_found() {
    let mut sel = Selection::new();
    assert!(sel.apply_option("--tuning", "drop-d"));
    let err = resolve_selection(&standard_stream(), &sel).unwrap_err();
    assert_eq!(
        err,
        ResolveError::NotFound { instrument: false, tuning: true, highlight: false }
    );
}

#[test]
fn missing_scale_is_corrupt() {
    let lines = vec![
        "I,guitar".to_string(),
        "T,guitar,std,0;5;10;3;7;0".to_string(),
        "H,S,major,0;2;4;5;7;9;11".to_string(),
    ];
    let err = resolve_selection(&lines, &Selection::new()).unwrap_err();
    assert_eq!(err, ResolveError::ScaleMissing);
}

#[test]
fn short_scale_is_corrupt() {
    // Both root notes (E and C) occur, so only the scale length is at fault.
    let lines = vec![
        "N,E;F;C".to_string(),
        "I,guitar".to_string(),
        "T,guitar,std,0;5;10;3;7;0".to_string(),
        "H,S,major,0;2;4;5;7;9;11".to_string(),
    ];
    let err = resolve_selection(&lines, &Selection::new()).unwrap_err();
    assert_eq!(err, ResolveError::ScaleNotTwelve { count: 3 });
}

#[test]
fn invalid_note_outranks_short_scale() {
    // The highlight root C is absent, which is reported before the length.
    let lines = vec![
        "N,E;F;G".to_string(),
        "I,guitar".to_string(),
        "T,guitar,std,0;5;10;3;7;0".to_string(),
        "H,S,major,0;2;4;5;7;9;11".to_string(),
    ];
    let err = resolve_selection(&lines, &Selection::new()).unwrap_err();
    assert_eq!(err, ResolveError::InvalidNote { note: "C".to_string() });
}

#[test]
fn rendering_is_deterministic() {
    let first = run_selection(&standard_stream(), &Selection::new()).unwrap();
    let second = run_selection(&standard_stream(), &Selection::new()).unwrap();
    assert_eq!(first, second);
}

#[test]
fn rendered_header_row() {
    let out = run_selection(&standard_stream(), &Selection::new()).unwrap();
    let header = out.lines().next().unwrap();
    assert_eq!(
        header,
        " 0 || 1 | 2 | 3 || 4 | 5 || 6 | 7 || 8 | 9 |10 |11 |12 ||13 |14 |15 ||16 |17 ||18 |19 ||20 |21 |22 |23 |24 ||"
    );
}

#[test]
fn rendered_first_string_cells() {
    let out = run_selection(&standard_stream(), &Selection::new()).unwrap();
    let first_row = out.lines().nth(1).unwrap();
    // Fret 0 (inlay): E, highlighted. Fret 1: F, highlighted. Fret 2: F#, plain.
    let expected_start = " \x1b[1;31mE\x1b[0m || \x1b[1;31mF\x1b[0m | F# |";
    assert!(
        first_row.starts_with(expected_start),
        "row began {:?}",
        &first_row[..expected_start.len().min(first_row.len())]
    );
}

#[test]
fn renders_one_row_per_string() {
    let out = run_selection(&standard_stream(), &Selection::new()).unwrap();
    assert_eq!(out.lines().count(), 7);
    assert!(out.ends_with('\n'));
}

#[test]
fn lenient_offset_falls_back_to_zero() {
    let notes = chromatic_from_e();
    assert_eq!(note_at(&notes, 0, 0, 0), note_at(&notes, 0, 0, 24));
    // An unparsable offset in a tuning behaves as offset zero.
    let lines = vec![
        "N,E;F;F#;G;G#;A;A#;B;C;C#;D;D#".to_string(),
        "I,guitar".to_string(),
        "T,guitar,std,zz;5;10;3;7;0".to_string(),
        "H,S,major,0;2;4;5;7;9;11".to_string(),
    ];
    let with_fallback = run_selection(&lines, &Selection::new()).unwrap();
    let with_zero = run_selection(&standard_stream(), &Selection::new()).unwrap();
    assert_eq!(with_fallback, with_zero);
}
