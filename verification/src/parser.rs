//! The record parser: classifies one raw line of the data file into a typed
//! record, or rejects it.

use vstd::prelude::*;
use crate::records::{DataLine, DataLineModel};
use crate::text::{split_chars, split_str, str_eq};

verus! {

/// How one raw line reads as a record, if it reads as one at all.
///
/// A line is split into fields on `,`. Two fields tagged `N` give the note
/// scale (the second field split on `;`); two fields tagged `I` give an
/// instrument name; four fields tagged `T` give a tuning (instrument, name,
/// offsets split on `;`); four fields tagged `H` give a highlight (type, name,
/// intervals split on `;`). Any other arity or tag is malformed.
pub open spec fn parse_line_model(s: Seq<char>) -> Option<DataLineModel> {
    let fields = split_chars(s, ',');
    if fields.len() == 2 {
        if fields[0] == "N"@ {
            Some(DataLineModel::Notes(split_chars(fields[1], ';')))
        } else if fields[0] == "I"@ {
            Some(DataLineModel::Instrument(fields[1]))
        } else {
            None
        }
    } else if fields.len() == 4 {
        if fields[0] == "T"@ {
            Some(
                DataLineModel::Tuning {
                    instrument: fields[1],
                    name: fields[2],
                    formula: split_chars(fields[3], ';'),
                },
            )
        } else if fields[0] == "H"@ {
            Some(
                DataLineModel::Highlight {
                    h_type: fields[1],
                    name: fields[2],
                    formula: split_chars(fields[3], ';'),
                },
            )
        } else {
            None
        }
    } else {
        None
    }
}

/// A malformed line: it matched none of the four record shapes. The error
/// carries the offending raw line; how it is worded for the user is the
/// caller's concern.
#[derive(Debug, Clone, PartialEq, Eq)]
pub struct FormatError {
    pub line: String,
}

/// Classifies one line of the data file, exactly as `parse_line_model` reads
/// it; a malformed line is rejected with an error carrying that raw line.
pub fn verify_data_line(data_line: &String) -> (r: Result<DataLine, FormatError>)
    ensures
        match r {
            Ok(dl) => parse_line_model(data_line@) == Some(dl@),
            Err(e) => parse_line_model(data_line@) is None && e.line@ == data_line@,
        },
{
    let fields = split_str(data_line.as_str(), ',');
    if fields.len() == 2 {
        if str_eq(fields[0].as_str(), "N") {
            let notes = split_str(fields[1].as_str(), ';');
            Ok(DataLine::Notes(notes))
        } else if str_eq(fields[0].as_str(), "I") {
            Ok(DataLine::Instrument(fields[1].clone()))
        } else {
            Err(FormatError { line: data_line.clone() })
        }
    } else if fields.len() == 4 {
        if str_eq(fields[0].as_str(), "T") {
            let formula = split_str(fields[3].as_str(), ';');
            Ok(
                DataLine::Tuning {
                    instrument: fields[1].clone(),
                    name: fields[2].clone(),
                    formula,
                },
            )
        } else if str_eq(fields[0].as_str(), "H") {
            let formula = split_str(fields[3].as_str(), ';');
            Ok(
                DataLine::Highlight {
                    h_type: fields[1].clone(),
                    name: fields[2].clone(),
                    formula,
                },
            )
        } else {
            Err(FormatError { line: data_line.clone() })
        }
    } else {
        Err(FormatError { line: data_line.clone() })
    }
}

/// Parsing is a function of the line's characters alone: reading the same line
/// again yields the same record, so parsing is idempotent.
pub proof fn lemma_parse_deterministic(l1: Seq<char>, l2: Seq<char>)
    requires
        l1 == l2,
    ensures
        parse_line_model(l1) == parse_line_model(l2),
{
}

} // verus!
