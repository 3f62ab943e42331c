//! The data-record model: the typed records a data line can carry, and the
//! six-field selection that picks which records a resolution uses.

use vstd::prelude::*;
use crate::text::starts_with_chars;

verus! {

/// One typed record of the flat-file database.
///
/// - `Notes`: the note scale, an ordered list of note names indexed by
///   semitone position.
/// - `Instrument`: an instrument known to the database, by name.
/// - `Tuning`: a named tuning of one instrument; `formula` holds one semitone
///   offset per string.
/// - `Highlight`: a named note set of one type (scale, chord, ...); `formula`
///   holds semitone intervals from a root note.
#[derive(Debug, Clone, PartialEq, Eq)]
pub enum DataLine {
    Notes(Vec<String>),
    Instrument(String),
    Tuning { instrument: String, name: String, formula: Vec<String> },
    Highlight { h_type: String, name: String, formula: Vec<String> },
}

/// Mathematical model of a `DataLine`: every string as a character sequence.
pub enum DataLineModel {
    Notes(Seq<Seq<char>>),
    Instrument(Seq<char>),
    Tuning { instrument: Seq<char>, name: Seq<char>, formula: Seq<Seq<char>> },
    Highlight { h_type: Seq<char>, name: Seq<char>, formula: Seq<Seq<char>> },
}

impl View for DataLine {
    type V = DataLineModel;

    open spec fn view(&self) -> DataLineModel {
        match self {
            DataLine::Notes(notes) => DataLineModel::Notes(notes.deep_view()),
            DataLine::Instrument(name) => DataLineModel::Instrument(name@),
            DataLine::Tuning { instrument, name, formula } => (DataLineModel::Tuning {
                instrument: instrument@,
                name: name@,
                formula: formula.deep_view(),
            }),
            DataLine::Highlight { h_type, name, formula } => (DataLineModel::Highlight {
                h_type: h_type@,
                name: name@,
                formula: formula.deep_view(),
            }),
        }
    }
}

/// The six user-chosen criteria that pick one instrument, tuning and highlight
/// to render.
#[derive(Debug, Clone, PartialEq, Eq)]
pub struct Selection {
    pub instrument: String,
    pub tuning: String,
    pub tuning_note: String,
    pub highlight_type: String,
    pub highlight: String,
    pub highlight_note: String,
}

/// Mathematical model of a `Selection`.
pub struct SelectionModel {
    pub instrument: Seq<char>,
    pub tuning: Seq<char>,
    pub tuning_note: Seq<char>,
    pub highlight_type: Seq<char>,
    pub highlight: Seq<char>,
    pub highlight_note: Seq<char>,
}

impl View for Selection {
    type V = SelectionModel;

    open spec fn view(&self) -> SelectionModel {
        SelectionModel {
            instrument: self.instrument@,
            tuning: self.tuning@,
            tuning_note: self.tuning_note@,
            highlight_type: self.highlight_type@,
            highlight: self.highlight@,
            highlight_note: self.highlight_note@,
        }
    }
}

/// The fixed default selection: a six-string guitar in standard tuning keyed
/// to E, highlighting the C major scale.
pub open spec fn default_selection() -> SelectionModel {
    SelectionModel {
        instrument: "guitar"@,
        tuning: "std"@,
        tuning_note: "E"@,
        highlight_type: "S"@,
        highlight: "major"@,
        highlight_note: "C"@,
    }
}

/// The effect of one `--key value` pair on a selection: the matching field is
/// replaced; an unknown key leaves no selection at all.
pub open spec fn apply_option_model(
    sel: SelectionModel,
    key: Seq<char>,
    value: Seq<char>,
) -> Option<SelectionModel> {
    if key == "--instrument"@ {
        Some(SelectionModel { instrument: value, ..sel })
    } else if key == "--tuning"@ {
        Some(SelectionModel { tuning: value, ..sel })
    } else if key == "--tuning-note"@ {
        Some(SelectionModel { tuning_note: value, ..sel })
    } else if key == "--highlight-type"@ {
        Some(SelectionModel { highlight_type: value, ..sel })
    } else if key == "--highlight"@ {
        Some(SelectionModel { highlight: value, ..sel })
    } else if key == "--highlight-note"@ {
        Some(SelectionModel { highlight_note: value, ..sel })
    } else {
        None
    }
}

impl Selection {
    /// A selection holding every default.
    pub fn new() -> (r: Selection)
        ensures
            r@ == default_selection(),
    {
        Selection {
            instrument: "guitar".to_owned(),
            tuning: "std".to_owned(),
            tuning_note: "E".to_owned(),
            highlight_type: "S".to_owned(),
            highlight: "major".to_owned(),
            highlight_note: "C".to_owned(),
        }
    }

    /// Overrides one field from a `--key value` pair; reports whether the key
    /// named a selection option. On an unknown key nothing changes.
    pub fn apply_option(&mut self, key: &str, value: &str) -> (r: bool)
        ensures
            match apply_option_model(old(self)@, key@, value@) {
                Some(m) => r && final(self)@ == m,
                None => !r && final(self)@ == old(self)@,
            },
    {
        if crate::text::str_eq(key, "--instrument") {
            self.instrument = value.to_owned();
            true
        } else if crate::text::str_eq(key, "--tuning") {
            self.tuning = value.to_owned();
            true
        } else if crate::text::str_eq(key, "--tuning-note") {
            self.tuning_note = value.to_owned();
            true
        } else if crate::text::str_eq(key, "--highlight-type") {
            self.highlight_type = value.to_owned();
            true
        } else if crate::text::str_eq(key, "--highlight") {
            self.highlight = value.to_owned();
            true
        } else if crate::text::str_eq(key, "--highlight-note") {
            self.highlight_note = value.to_owned();
            true
        } else {
            false
        }
    }
}

/// The data file to read: the caller's choice, or the default path.
pub fn get_data_file_name<'a>(data_file: Option<&'a String>) -> (r: &'a str)
    ensures
        match data_file {
            Some(df) => r@ == df@,
            None => r@ == "data.txt"@,
        },
{
    match data_file {
        Some(df) => df.as_str(),
        None => "data.txt",
    }
}

/// The record prefix that one `list` option selects; `D` stands for the whole
/// data file.
pub open spec fn list_prefix_model(option: Seq<char>) -> Seq<char> {
    if option == "instruments"@ {
        "I,"@
    } else if option == "tunings"@ {
        "T,"@
    } else if option == "highlights"@ {
        "H,"@
    } else {
        "D"@
    }
}

/// Maps a `list` option to the record prefix it selects.
pub fn list_prefix(option: &str) -> (r: &'static str)
    ensures
        r@ == list_prefix_model(option@),
{
    if crate::text::str_eq(option, "instruments") {
        "I,"
    } else if crate::text::str_eq(option, "tunings") {
        "T,"
    } else if crate::text::str_eq(option, "highlights") {
        "H,"
    } else {
        "D"
    }
}

/// Whether a raw line belongs to a `list` filter: it starts with the filter's
/// record prefix, or the filter selects the whole file.
pub fn line_matches_filter(line: &str, prefix: &str) -> (r: bool)
    ensures
        r == (starts_with_chars(line@, prefix@) || prefix@ == "D"@),
{
    if crate::text::str_starts_with(line, prefix) {
        true
    } else {
        crate::text::str_eq(prefix, "D")
    }
}

} // verus!
