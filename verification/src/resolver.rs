//! The selection resolver: scans the record stream once, fills four record
//! slots first-match-wins, and validates the selection's root notes against
//! the resolved note scale.

use vstd::prelude::*;
use crate::parser::{parse_line_model, verify_data_line};
use crate::records::{DataLine, DataLineModel, Selection, SelectionModel};
use crate::text::{find_note, str_eq};

verus! {

/// A named tuning or highlight record: its two name fields and its formula.
#[derive(Debug, Clone, PartialEq, Eq)]
pub struct NamedFormula {
    pub kind: String,
    pub name: String,
    pub formula: Vec<String>,
}

/// Mathematical model of a `NamedFormula`.
pub struct NamedFormulaModel {
    pub kind: Seq<char>,
    pub name: Seq<char>,
    pub formula: Seq<Seq<char>>,
}

impl View for NamedFormula {
    type V = NamedFormulaModel;

    open spec fn view(&self) -> NamedFormulaModel {
        NamedFormulaModel { kind: self.kind@, name: self.name@, formula: self.formula.deep_view() }
    }
}

/// The four slots a scan fills: note scale, instrument, tuning, highlight.
pub struct SlotsModel {
    pub notes: Option<Seq<Seq<char>>>,
    pub instrument: Option<Seq<char>>,
    pub tuning: Option<NamedFormulaModel>,
    pub highlight: Option<NamedFormulaModel>,
}

/// The slots before any record has been read.
pub open spec fn empty_slots() -> SlotsModel {
    SlotsModel { notes: None, instrument: None, tuning: None, highlight: None }
}

/// The model of four in-progress slot holders.
pub open spec fn slots_model(
    ns: Option<Vec<String>>,
    ins: Option<String>,
    tun: Option<NamedFormula>,
    hi: Option<NamedFormula>,
) -> SlotsModel {
    SlotsModel {
        notes: match ns {
            Some(v) => Some(v.deep_view()),
            None => None,
        },
        instrument: match ins {
            Some(v) => Some(v@),
            None => None,
        },
        tuning: match tun {
            Some(v) => Some(v@),
            None => None,
        },
        highlight: match hi {
            Some(v) => Some(v@),
            None => None,
        },
    }
}

/// How one parsed record changes the slots: it fills the slot of its own kind,
/// but only if that slot is still empty and the record matches the selection's
/// filter for that kind. The note scale has no filter: the first one wins.
pub open spec fn fill_slots(slots: SlotsModel, dl: DataLineModel, sel: SelectionModel) -> SlotsModel {
    match dl {
        DataLineModel::Notes(ns) => if slots.notes is None {
            SlotsModel { notes: Some(ns), ..slots }
        } else {
            slots
        },
        DataLineModel::Instrument(name) => if slots.instrument is None && name == sel.instrument {
            SlotsModel { instrument: Some(name), ..slots }
        } else {
            slots
        },
        DataLineModel::Tuning { instrument, name, formula } => if slots.tuning is None && instrument
            == sel.instrument && name == sel.tuning {
            SlotsModel {
                tuning: Some(NamedFormulaModel { kind: instrument, name, formula }),
                ..slots
            }
        } else {
            slots
        },
        DataLineModel::Highlight { h_type, name, formula } => if slots.highlight is None && h_type
            == sel.highlight_type && name == sel.highlight {
            SlotsModel {
                highlight: Some(NamedFormulaModel { kind: h_type, name, formula }),
                ..slots
            }
        } else {
            slots
        },
    }
}

/// One forward pass over the stream: each line is parsed and fills the slots;
/// the first malformed line aborts the whole scan and is carried out as the
/// error.
pub open spec fn scan_model(
    lines: Seq<Seq<char>>,
    sel: SelectionModel,
    slots: SlotsModel,
) -> Result<SlotsModel, Seq<char>>
    decreases lines.len(),
{
    if lines.len() == 0 {
        Ok(slots)
    } else {
        match parse_line_model(lines[0]) {
            None => Err(lines[0]),
            Some(dl) => scan_model(lines.drop_first(), sel, fill_slots(slots, dl, sel)),
        }
    }
}

/// The fully resolved quadruple a successful resolution hands the fretboard
/// engine. The note scale always holds exactly twelve entries.
#[derive(Debug, Clone, PartialEq, Eq)]
pub struct Resolved {
    pub notes: Vec<String>,
    pub instrument: String,
    pub tuning: NamedFormula,
    pub highlight: NamedFormula,
}

/// Mathematical model of a `Resolved`.
pub struct ResolvedModel {
    pub notes: Seq<Seq<char>>,
    pub instrument: Seq<char>,
    pub tuning: NamedFormulaModel,
    pub highlight: NamedFormulaModel,
}

impl View for Resolved {
    type V = ResolvedModel;

    open spec fn view(&self) -> ResolvedModel {
        ResolvedModel {
            notes: self.notes.deep_view(),
            instrument: self.instrument@,
            tuning: self.tuning@,
            highlight: self.highlight@,
        }
    }
}

/// Why a resolution failed.
///
/// - `Format`: a line matched no record shape; it carries the raw line, and
///   nothing after that line was used.
/// - `ScaleMissing`: the stream defines no note scale at all — the data file
///   is corrupt, since every valid file must define one.
/// - `ScaleNotTwelve`: the note scale does not hold exactly twelve notes —
///   also a corrupt data file; carries the count found.
/// - `NotFound`: the scan completed but a selection criterion matched no
///   record; the flags name the unsatisfied ones.
/// - `InvalidNote`: a requested root note does not occur in the note scale;
///   carries the bad note.
#[derive(Debug, Clone, PartialEq, Eq)]
pub enum ResolveError {
    Format { line: String },
    ScaleMissing,
    ScaleNotTwelve { count: usize },
    NotFound { instrument: bool, tuning: bool, highlight: bool },
    InvalidNote { note: String },
}

/// Mathematical model of a `ResolveError`.
pub enum ResolveErrorModel {
    Format { line: Seq<char> },
    ScaleMissing,
    ScaleNotTwelve { count: nat },
    NotFound { instrument: bool, tuning: bool, highlight: bool },
    InvalidNote { note: Seq<char> },
}

impl View for ResolveError {
    type V = ResolveErrorModel;

    open spec fn view(&self) -> ResolveErrorModel {
        match self {
            ResolveError::Format { line } => (ResolveErrorModel::Format { line: line@ }),
            ResolveError::ScaleMissing => ResolveErrorModel::ScaleMissing,
            ResolveError::ScaleNotTwelve { count } => (ResolveErrorModel::ScaleNotTwelve {
                count: *count as nat,
            }),
            ResolveError::NotFound { instrument, tuning, highlight } => (ResolveErrorModel::NotFound {
                instrument: *instrument,
                tuning: *tuning,
                highlight: *highlight,
            }),
            ResolveError::InvalidNote { note } => (ResolveErrorModel::InvalidNote { note: note@ }),
        }
    }
}

/// The whole resolution of one stream against one selection: scan, then check
/// the slots, then check both root notes against the note scale, then check
/// that the scale holds its twelve entries. Structural errors come first, then
/// missing records, then invalid notes — the tuning root before the highlight
/// root — and last the scale-length check that keeps the fretboard engine
/// total.
pub open spec fn resolve_model(
    lines: Seq<Seq<char>>,
    sel: SelectionModel,
) -> Result<ResolvedModel, ResolveErrorModel> {
    match scan_model(lines, sel, empty_slots()) {
        Err(line) => Err(ResolveErrorModel::Format { line }),
        Ok(slots) => match slots.notes {
            None => Err(ResolveErrorModel::ScaleMissing),
            Some(ns) => if slots.instrument is None || slots.tuning is None || slots.highlight is None {
                Err(
                    ResolveErrorModel::NotFound {
                        instrument: slots.instrument is None,
                        tuning: slots.tuning is None,
                        highlight: slots.highlight is None,
                    },
                )
            } else if !ns.contains(sel.tuning_note) {
                Err(ResolveErrorModel::InvalidNote { note: sel.tuning_note })
            } else if !ns.contains(sel.highlight_note) {
                Err(ResolveErrorModel::InvalidNote { note: sel.highlight_note })
            } else if ns.len() != 12 {
                Err(ResolveErrorModel::ScaleNotTwelve { count: ns.len() })
            } else {
                Ok(
                    ResolvedModel {
                        notes: ns,
                        instrument: slots.instrument->Some_0,
                        tuning: slots.tuning->Some_0,
                        highlight: slots.highlight->Some_0,
                    },
                )
            },
        },
    }
}

/// Scans the stream and resolves the selection, exactly as `resolve_model`
/// reads it. On success the note scale holds exactly twelve notes and both
/// root notes occur in it.
pub fn resolve_selection(lines: &Vec<String>, sel: &Selection) -> (r: Result<Resolved, ResolveError>)
    ensures
        match r {
            Ok(res) => resolve_model(lines.deep_view(), sel@) == Ok::<ResolvedModel, ResolveErrorModel>(res@),
            Err(e) => resolve_model(lines.deep_view(), sel@) == Err::<ResolvedModel, ResolveErrorModel>(e@),
        },
        r matches Ok(res) ==> res.notes.deep_view().len() == 12
            && res.notes.deep_view().contains(sel.tuning_note@)
            && res.notes.deep_view().contains(sel.highlight_note@),
{
    let ghost all_lines = lines.deep_view();
    let mut notes_slot: Option<Vec<String>> = None;
    let mut instrument_slot: Option<String> = None;
    let mut tuning_slot: Option<NamedFormula> = None;
    let mut highlight_slot: Option<NamedFormula> = None;

    proof {
        assert(all_lines.subrange(0, all_lines.len() as int) =~= all_lines);
        assert(slots_model(notes_slot, instrument_slot, tuning_slot, highlight_slot)
            == empty_slots());
    }
    let mut i: usize = 0;
    while i < lines.len()
        invariant
            i <= lines.len(),
            all_lines == lines.deep_view(),
            all_lines.len() == lines.len(),
            scan_model(all_lines, sel@, empty_slots()) == scan_model(
                all_lines.subrange(i as int, all_lines.len() as int),
                sel@,
                slots_model(notes_slot, instrument_slot, tuning_slot, highlight_slot),
            ),
        decreases lines.len() - i,
    {
        let ghost pre_slots = slots_model(notes_slot, instrument_slot, tuning_slot, highlight_slot);
        let ghost rest = all_lines.subrange(i as int, all_lines.len() as int);
        proof {
            assert(rest[0] == all_lines[i as int]);
            assert(all_lines[i as int] == lines@[i as int]@);
            assert(rest.drop_first() =~= all_lines.subrange(i as int + 1, all_lines.len() as int));
        }
        match verify_data_line(&lines[i]) {
            Err(e) => {
                return Err(ResolveError::Format { line: e.line });
            },
            Ok(dl) => {
                let ghost dlm = dl@;
                match dl {
                    DataLine::Notes(ns) => {
                        if notes_slot.is_none() {
                            notes_slot = Some(ns);
                        }
                    },
                    DataLine::Instrument(name) => {
                        if instrument_slot.is_none() && str_eq(
                            sel.instrument.as_str(),
                            name.as_str(),
                        ) {
                            instrument_slot = Some(name);
                        }
                    },
                    DataLine::Tuning { instrument, name, formula } => {
                        if tuning_slot.is_none() && str_eq(sel.instrument.as_str(), instrument.as_str())
                            && str_eq(sel.tuning.as_str(), name.as_str()) {
                            tuning_slot = Some(NamedFormula { kind: instrument, name, formula });
                        }
                    },
                    DataLine::Highlight { h_type, name, formula } => {
                        if highlight_slot.is_none() && str_eq(
                            sel.highlight_type.as_str(),
                            h_type.as_str(),
                        ) && str_eq(sel.highlight.as_str(), name.as_str()) {
                            highlight_slot = Some(NamedFormula { kind: h_type, name, formula });
                        }
                    },
                }
                proof {
                    assert(slots_model(notes_slot, instrument_slot, tuning_slot, highlight_slot)
                        == fill_slots(pre_slots, dlm, sel@));
                    assert(scan_model(rest, sel@, pre_slots) == scan_model(
                        rest.drop_first(),
                        sel@,
                        fill_slots(pre_slots, dlm, sel@),
                    ));
                }
            },
        }
        i = i + 1;
    }
    proof {
        assert(all_lines.subrange(all_lines.len() as int, all_lines.len() as int)
            =~= Seq::<Seq<char>>::empty());
    }

    let notes = match notes_slot {
        None => {
            return Err(ResolveError::ScaleMissing);
        },
        Some(ns) => ns,
    };
    if instrument_slot.is_none() || tuning_slot.is_none() || highlight_slot.is_none() {
        return Err(
            ResolveError::NotFound {
                instrument: instrument_slot.is_none(),
                tuning: tuning_slot.is_none(),
                highlight: highlight_slot.is_none(),
            },
        );
    }
    if find_note(&notes, sel.tuning_note.as_str()).is_none() {
        return Err(ResolveError::InvalidNote { note: sel.tuning_note.clone() });
    }
    if find_note(&notes, sel.highlight_note.as_str()).is_none() {
        return Err(ResolveError::InvalidNote { note: sel.highlight_note.clone() });
    }
    if notes.len() != 12 {
        return Err(ResolveError::ScaleNotTwelve { count: notes.len() });
    }
    Ok(
        Resolved {
            notes,
            instrument: instrument_slot.unwrap(),
            tuning: tuning_slot.unwrap(),
            highlight: highlight_slot.unwrap(),
        },
    )
}

/// Whether a raw line reads as a note-scale record.
pub open spec fn is_notes_line(l: Seq<char>) -> bool {
    parse_line_model(l) matches Some(DataLineModel::Notes(_))
}

/// A slot once filled stays filled with the same record for the rest of the
/// scan: later matching records are ignored.
pub proof fn lemma_filled_slots_persist(
    lines: Seq<Seq<char>>,
    sel: SelectionModel,
    slots: SlotsModel,
    r: SlotsModel,
)
    requires
        scan_model(lines, sel, slots) == Ok::<SlotsModel, Seq<char>>(r),
    ensures
        slots.notes is Some ==> r.notes == slots.notes,
        slots.instrument is Some ==> r.instrument == slots.instrument,
        slots.tuning is Some ==> r.tuning == slots.tuning,
        slots.highlight is Some ==> r.highlight == slots.highlight,
    decreases lines.len(),
{
    if lines.len() > 0 {
        match parse_line_model(lines[0]) {
            None => {},
            Some(dl) => {
                lemma_filled_slots_persist(lines.drop_first(), sel, fill_slots(slots, dl, sel), r);
            },
        }
    }
}

/// First-record-wins for the note scale: when a scan from empty slots
/// succeeds, the scale it returns is the one of the first note-scale record in
/// the stream, whatever comes later.
pub proof fn lemma_first_record_wins(
    lines: Seq<Seq<char>>,
    sel: SelectionModel,
    r: SlotsModel,
    i: int,
)
    requires
        scan_model(lines, sel, empty_slots()) == Ok::<SlotsModel, Seq<char>>(r),
        0 <= i < lines.len(),
        is_notes_line(lines[i]),
        forall|j: int| 0 <= j < i ==> !is_notes_line(lines[j]),
    ensures
        r.notes == Some(parse_line_model(lines[i])->Some_0->Notes_0),
{
    lemma_first_notes_fills(lines, sel, empty_slots(), r, i);
}

/// Helper for `lemma_first_record_wins`, generalized over a starting slot
/// state whose note slot is still empty.
proof fn lemma_first_notes_fills(
    lines: Seq<Seq<char>>,
    sel: SelectionModel,
    slots: SlotsModel,
    r: SlotsModel,
    i: int,
)
    requires
        scan_model(lines, sel, slots) == Ok::<SlotsModel, Seq<char>>(r),
        slots.notes is None,
        0 <= i < lines.len(),
        is_notes_line(lines[i]),
        forall|j: int| 0 <= j < i ==> !is_notes_line(lines[j]),
    ensures
        r.notes == Some(parse_line_model(lines[i])->Some_0->Notes_0),
    decreases lines.len(),
{
    let dl = parse_line_model(lines[0])->Some_0;
    let next = fill_slots(slots, dl, sel);
    if i == 0 {
        lemma_filled_slots_persist(lines.drop_first(), sel, next, r);
    } else {
        assert(!is_notes_line(lines[0]));
        assert(next.notes is None);
        assert forall|j: int| 0 <= j < i - 1 implies !is_notes_line(lines.drop_first()[j]) by {
            assert(lines.drop_first()[j] == lines[j + 1]);
        }
        assert(lines.drop_first()[i - 1] == lines[i]);
        lemma_first_notes_fills(lines.drop_first(), sel, next, r, i - 1);
    }
}

/// Fail-fast: the first malformed line aborts the scan with exactly that line,
/// whatever well-formed records stand before or after it.
pub proof fn lemma_fail_fast(lines: Seq<Seq<char>>, sel: SelectionModel, slots: SlotsModel, n: int)
    requires
        0 <= n < lines.len(),
        parse_line_model(lines[n]) is None,
        forall|j: int| 0 <= j < n ==> parse_line_model(lines[j]) is Some,
    ensures
        scan_model(lines, sel, slots) == Err::<SlotsModel, Seq<char>>(lines[n]),
    decreases lines.len(),
{
    if n == 0 {
    } else {
        let dl = parse_line_model(lines[0])->Some_0;
        assert forall|j: int| 0 <= j < n - 1 implies parse_line_model(lines.drop_first()[j]) is Some
        by {
            assert(lines.drop_first()[j] == lines[j + 1]);
        }
        assert(lines.drop_first()[n - 1] == lines[n]);
        lemma_fail_fast(lines.drop_first(), sel, fill_slots(slots, dl, sel), n - 1);
    }
}

} // verus!
