//! The fretboard engine: computes the note at every string/fret position of
//! the resolved tuning, marks the highlighted notes, and renders the fixed
//! 25-fret ASCII diagram.

use vstd::prelude::*;
use vstd::arithmetic::div_mod::{lemma_add_mod_noop_right, lemma_mod_multiples_vanish};
use crate::records::{Selection, SelectionModel};
use crate::resolver::{resolve_model, resolve_selection, ResolveError, ResolveErrorModel};
use crate::text::{find_note, lenient_uint, parse_lenient_uint};

verus! {

/// Position of the first occurrence of `x` in `notes`, or `notes.len()` if it
/// does not occur.
pub open spec fn first_index_of(notes: Seq<Seq<char>>, x: Seq<char>) -> nat
    decreases notes.len(),
{
    if notes.len() == 0 {
        0
    } else if notes[0] == x {
        0
    } else {
        1 + first_index_of(notes.drop_first(), x)
    }
}

/// A position that holds `x` with no earlier occurrence is the first one.
pub proof fn lemma_first_index_is(notes: Seq<Seq<char>>, x: Seq<char>, i: int)
    requires
        0 <= i < notes.len(),
        notes[i] == x,
        forall|j: int| 0 <= j < i ==> notes[j] != x,
    ensures
        first_index_of(notes, x) == i,
    decreases notes.len(),
{
    if notes[0] == x {
        assert(i == 0);
    } else {
        assert(i > 0);
        assert forall|j: int| 0 <= j < i - 1 implies notes.drop_first()[j] != x by {
            assert(notes.drop_first()[j] == notes[j + 1]);
        }
        assert(notes.drop_first()[i - 1] == notes[i]);
        lemma_first_index_is(notes.drop_first(), x, i - 1);
    }
}

/// The note sounding at one position: the scale entry at the string's offset
/// plus the tuning root plus the fret, wrapped around the twelve semitones.
pub open spec fn note_at_model(notes: Seq<Seq<char>>, offset: nat, root: nat, fret: nat) -> Seq<
    char,
> {
    notes[((offset + root + fret) % 12) as int]
}

/// Looks up the note at one position of a twelve-note scale.
pub fn note_at(notes: &Vec<String>, offset: usize, root: usize, fret: usize) -> (r: String)
    requires
        notes.deep_view().len() == 12,
        root < 12,
        fret <= 24,
    ensures
        r@ == note_at_model(notes.deep_view(), offset as nat, root as nat, fret as nat),
{
    let idx = (offset % 12 + root + fret) % 12;
    proof {
        lemma_add_mod_noop_right((root + fret) as int, offset as int, 12);
        assert(notes@.len() == notes.deep_view().len());
        assert(notes.deep_view()[idx as int] == notes@[idx as int]@);
    }
    notes[idx].clone()
}

/// The notes a highlight marks: for each interval of its formula, read
/// leniently, the scale entry that interval above the highlight root. Repeats
/// are kept; only membership matters to the rendering.
pub open spec fn highlight_notes_model(
    notes: Seq<Seq<char>>,
    formula: Seq<Seq<char>>,
    root: nat,
) -> Seq<Seq<char>> {
    Seq::new(formula.len(), |k: int| note_at_model(notes, lenient_uint(formula[k]), root, 0))
}

/// Computes the highlighted note names from a highlight formula.
pub fn highlighted_notes(notes: &Vec<String>, formula: &Vec<String>, root: usize) -> (r: Vec<
    String,
>)
    requires
        notes.deep_view().len() == 12,
        root < 12,
    ensures
        r.deep_view() == highlight_notes_model(notes.deep_view(), formula.deep_view(), root as nat),
{
    let mut r: Vec<String> = Vec::new();
    let mut k: usize = 0;
    while k < formula.len()
        invariant
            notes.deep_view().len() == 12,
            root < 12,
            k <= formula.len(),
            formula.deep_view().len() == formula.len(),
            r.deep_view().len() == k,
            forall|j: int| 0 <= j < k ==> r.deep_view()[j] == note_at_model(
                notes.deep_view(),
                lenient_uint(formula.deep_view()[j]),
                root as nat,
                0,
            ),
        decreases formula.len() - k,
    {
        let v = parse_lenient_uint(formula[k].as_str());
        proof {
            assert(formula@[k as int]@ == formula.deep_view()[k as int]);
        }
        let note = note_at(notes, v, root, 0);
        let ghost old_dv = r.deep_view();
        r.push(note);
        proof {
            assert(r.deep_view() =~= old_dv.push(note@));
        }
        k = k + 1;
    }
    proof {
        assert(r.deep_view() =~= highlight_notes_model(
            notes.deep_view(),
            formula.deep_view(),
            root as nat,
        ));
    }
    r
}

/// Whether `x` occurs among `notes`.
pub fn contains_note(notes: &Vec<String>, x: &str) -> (r: bool)
    ensures
        r == notes.deep_view().contains(x@),
{
    match find_note(notes, x) {
        Some(i) => {
            proof {
                assert(notes.deep_view()[i as int] == x@);
            }
            true
        },
        None => false,
    }
}

/// Whether a fret sits at one of the conventional inlay positions, after which
/// the diagram inserts a second separator bar.
pub open spec fn is_inlay(f: int) -> bool {
    f == 0 || f == 3 || f == 5 || f == 7 || f == 12 || f == 15 || f == 17 || f == 19 || f == 24
}

fn inlay(f: usize) -> (r: bool)
    ensures
        r == is_inlay(f as int),
{
    f == 0 || f == 3 || f == 5 || f == 7 || f == 12 || f == 15 || f == 17 || f == 19 || f == 24
}

/// The three-character centered label of a fret number in the header row.
pub open spec fn fret_label_model(f: int) -> Seq<char> {
    if f == 0 { " 0 "@ }
    else if f == 1 { " 1 "@ }
    else if f == 2 { " 2 "@ }
    else if f == 3 { " 3 "@ }
    else if f == 4 { " 4 "@ }
    else if f == 5 { " 5 "@ }
    else if f == 6 { " 6 "@ }
    else if f == 7 { " 7 "@ }
    else if f == 8 { " 8 "@ }
    else if f == 9 { " 9 "@ }
    else if f == 10 { "10 "@ }
    else if f == 11 { "11 "@ }
    else if f == 12 { "12 "@ }
    else if f == 13 { "13 "@ }
    else if f == 14 { "14 "@ }
    else if f == 15 { "15 "@ }
    else if f == 16 { "16 "@ }
    else if f == 17 { "17 "@ }
    else if f == 18 { "18 "@ }
    else if f == 19 { "19 "@ }
    else if f == 20 { "20 "@ }
    else if f == 21 { "21 "@ }
    else if f == 22 { "22 "@ }
    else if f == 23 { "23 "@ }
    else { "24 "@ }
}

fn fret_label(f: usize) -> (r: &'static str)
    requires
        f <= 24,
    ensures
        r@ == fret_label_model(f as int),
{
    if f == 0 { " 0 " }
    else if f == 1 { " 1 " }
    else if f == 2 { " 2 " }
    else if f == 3 { " 3 " }
    else if f == 4 { " 4 " }
    else if f == 5 { " 5 " }
    else if f == 6 { " 6 " }
    else if f == 7 { " 7 " }
    else if f == 8 { " 8 " }
    else if f == 9 { " 9 " }
    else if f == 10 { "10 " }
    else if f == 11 { "11 " }
    else if f == 12 { "12 " }
    else if f == 13 { "13 " }
    else if f == 14 { "14 " }
    else if f == 15 { "15 " }
    else if f == 16 { "16 " }
    else if f == 17 { "17 " }
    else if f == 18 { "18 " }
    else if f == 19 { "19 " }
    else if f == 20 { "20 " }
    else if f == 21 { "21 " }
    else if f == 22 { "22 " }
    else if f == 23 { "23 " }
    else { "24 " }
}

/// One header cell: the fret label, a separator bar, and a second bar at the
/// inlay positions.
pub open spec fn header_cell_model(f: int) -> Seq<char> {
    if is_inlay(f) {
        fret_label_model(f) + "||"@
    } else {
        fret_label_model(f) + "|"@
    }
}

/// The first `n` header cells, in fret order.
pub open spec fn header_cells_model(n: int) -> Seq<char>
    decreases n,
{
    if n <= 0 {
        Seq::empty()
    } else {
        header_cells_model(n - 1) + header_cell_model(n - 1)
    }
}

/// The fret-number header row of the diagram.
pub open spec fn header_row_model() -> Seq<char> {
    header_cells_model(25) + "\n"@
}

/// One note cell of a string row: the note name between spaces and a bar, in
/// the emphasized form when the note is highlighted, and a second bar at the
/// inlay positions.
pub open spec fn note_cell_model(note: Seq<char>, emph: bool, inlay: bool) -> Seq<char> {
    let cell = if emph {
        " \x1b[1;31m"@ + note + "\x1b[0m |"@
    } else {
        " "@ + note + " |"@
    };
    if inlay {
        cell + "|"@
    } else {
        cell
    }
}

/// The first `n` cells of one string's row.
pub open spec fn row_cells_model(
    notes: Seq<Seq<char>>,
    offset: nat,
    root: nat,
    highlights: Seq<Seq<char>>,
    n: int,
) -> Seq<char>
    decreases n,
{
    if n <= 0 {
        Seq::empty()
    } else {
        let note = note_at_model(notes, offset, root, (n - 1) as nat);
        row_cells_model(notes, offset, root, highlights, n - 1) + note_cell_model(
            note,
            highlights.contains(note),
            is_inlay(n - 1),
        )
    }
}

/// One full string row: 25 note cells and a line break.
pub open spec fn string_row_model(
    notes: Seq<Seq<char>>,
    offset: nat,
    root: nat,
    highlights: Seq<Seq<char>>,
) -> Seq<char> {
    row_cells_model(notes, offset, root, highlights, 25) + "\n"@
}

/// The rows of the first `k` strings of the tuning, in the order authored.
pub open spec fn rows_model(
    notes: Seq<Seq<char>>,
    formula: Seq<Seq<char>>,
    root: nat,
    highlights: Seq<Seq<char>>,
    k: int,
) -> Seq<char>
    decreases k,
{
    if k <= 0 {
        Seq::empty()
    } else {
        rows_model(notes, formula, root, highlights, k - 1) + string_row_model(
            notes,
            lenient_uint(formula[k - 1]),
            root,
            highlights,
        )
    }
}

/// The whole diagram: the header row, then one row per string of the tuning.
pub open spec fn fretboard_model(
    notes: Seq<Seq<char>>,
    formula: Seq<Seq<char>>,
    root: nat,
    highlights: Seq<Seq<char>>,
) -> Seq<char> {
    header_row_model() + rows_model(notes, formula, root, highlights, formula.len() as int)
}

/// Renders the diagram for a twelve-note scale, a tuning formula, the tuning
/// root's scale position, and the highlighted note names.
pub fn render_fretboard(
    notes: &Vec<String>,
    formula: &Vec<String>,
    root: usize,
    highlights: &Vec<String>,
) -> (r: String)
    requires
        notes.deep_view().len() == 12,
        root < 12,
    ensures
        r@ == fretboard_model(
            notes.deep_view(),
            formula.deep_view(),
            root as nat,
            highlights.deep_view(),
        ),
{
    let ghost notes_m = notes.deep_view();
    let ghost formula_m = formula.deep_view();
    let ghost highlights_m = highlights.deep_view();
    let mut out = String::new();
    let mut f: usize = 0;
    while f < 25
        invariant
            f <= 25,
            out@ == header_cells_model(f as int),
        decreases 25 - f,
    {
        let ghost before = out@;
        out.append(fret_label(f));
        if inlay(f) {
            out.append("||");
        } else {
            out.append("|");
        }
        proof {
            assert(out@ =~= before + header_cell_model(f as int));
        }
        f = f + 1;
    }
    out.append("\n");
    proof {
        assert(out@ =~= header_row_model());
        assert(out@ =~= header_row_model() + rows_model(notes_m, formula_m, root as nat, highlights_m, 0));
    }
    let mut s: usize = 0;
    while s < formula.len()
        invariant
            notes.deep_view() == notes_m,
            formula.deep_view() == formula_m,
            highlights.deep_view() == highlights_m,
            notes_m.len() == 12,
            root < 12,
            s <= formula.len(),
            formula_m.len() == formula.len(),
            out@ == header_row_model() + rows_model(notes_m, formula_m, root as nat, highlights_m, s as int),
        decreases formula.len() - s,
    {
        let offset = parse_lenient_uint(formula[s].as_str());
        proof {
            assert(formula@[s as int]@ == formula_m[s as int]);
        }
        let ghost row_start = out@;
        let mut f: usize = 0;
        while f < 25
            invariant
                notes.deep_view() == notes_m,
                highlights.deep_view() == highlights_m,
                notes_m.len() == 12,
                root < 12,
                f <= 25,
                offset as nat == lenient_uint(formula_m[s as int]),
                s < formula_m.len(),
                out@ == row_start + row_cells_model(
                    notes_m,
                    offset as nat,
                    root as nat,
                    highlights_m,
                    f as int,
                ),
            decreases 25 - f,
        {
            let note = note_at(notes, offset, root, f);
            let emph = contains_note(highlights, note.as_str());
            let ghost before = out@;
            if emph {
                out.append(" \x1b[1;31m");
                out.append(note.as_str());
                out.append("\x1b[0m |");
            } else {
                out.append(" ");
                out.append(note.as_str());
                out.append(" |");
            }
            if inlay(f) {
                out.append("|");
            }
            proof {
                assert(out@ =~= before + note_cell_model(note@, emph, is_inlay(f as int)));
                assert(out@ =~= row_start + row_cells_model(
                    notes_m,
                    offset as nat,
                    root as nat,
                    highlights_m,
                    f as int + 1,
                ));
            }
            f = f + 1;
        }
        out.append("\n");
        proof {
            assert(out@ =~= row_start + string_row_model(
                notes_m,
                offset as nat,
                root as nat,
                highlights_m,
            ));
            assert(out@ =~= header_row_model() + rows_model(
                notes_m,
                formula_m,
                root as nat,
                highlights_m,
                s as int + 1,
            ));
        }
        s = s + 1;
    }
    out
}

/// The whole pipeline on a resolved stream: the diagram rendered from the
/// resolved records, with the tuning rooted at the selection's tuning note and
/// the highlight rooted at its highlight note; or the resolution error.
pub open spec fn run_selection_model(lines: Seq<Seq<char>>, sel: SelectionModel) -> Result<
    Seq<char>,
    ResolveErrorModel,
> {
    match resolve_model(lines, sel) {
        Err(e) => Err(e),
        Ok(res) => {
            let t_root = first_index_of(res.notes, sel.tuning_note);
            let h_root = first_index_of(res.notes, sel.highlight_note);
            let highlights = highlight_notes_model(res.notes, res.highlight.formula, h_root);
            Ok(fretboard_model(res.notes, res.tuning.formula, t_root, highlights))
        },
    }
}

/// Resolves the selection against the stream and renders the diagram, exactly
/// as `run_selection_model` describes.
pub fn run_selection(lines: &Vec<String>, sel: &Selection) -> (r: Result<String, ResolveError>)
    ensures
        match r {
            Ok(s) => run_selection_model(lines.deep_view(), sel@) == Ok::<
                Seq<char>,
                ResolveErrorModel,
            >(s@),
            Err(e) => run_selection_model(lines.deep_view(), sel@) == Err::<
                Seq<char>,
                ResolveErrorModel,
            >(e@),
        },
{
    let res = match resolve_selection(lines, sel) {
        Err(e) => {
            return Err(e);
        },
        Ok(res) => res,
    };
    let t_root = match find_note(&res.notes, sel.tuning_note.as_str()) {
        Some(i) => {
            proof {
                lemma_first_index_is(res.notes.deep_view(), sel.tuning_note@, i as int);
            }
            i
        },
        None => unreached(),
    };
    let h_root = match find_note(&res.notes, sel.highlight_note.as_str()) {
        Some(i) => {
            proof {
                lemma_first_index_is(res.notes.deep_view(), sel.highlight_note@, i as int);
            }
            i
        },
        None => unreached(),
    };
    let highlights = highlighted_notes(&res.notes, &res.highlight.formula, h_root);
    Ok(render_fretboard(&res.notes, &res.tuning.formula, t_root, &highlights))
}

/// Octave wraparound: moving any whole number of octaves along a twelve-note
/// scale selects the same entry; in particular one octave up from an index
/// returns to it.
pub proof fn lemma_octave_wraparound(notes: Seq<Seq<char>>, i: int, k: int)
    requires
        notes.len() == 12,
    ensures
        notes[(i + 12 * k) % 12] == notes[i % 12],
        0 <= i < 12 ==> notes[(i + 12) % 12] == notes[i],
{
    lemma_mod_multiples_vanish(k, i, 12);
    lemma_mod_multiples_vanish(1, i, 12);
}

/// Fret 24 sounds the open-string note: its position wraps two whole octaves,
/// by the same modular arithmetic as fret 0.
pub proof fn lemma_fret_24_is_open(notes: Seq<Seq<char>>, offset: nat, root: nat)
    requires
        notes.len() == 12,
    ensures
        note_at_model(notes, offset, root, 24) == note_at_model(notes, offset, root, 0),
{
    lemma_mod_multiples_vanish(2, offset + root as int, 12);
}

/// Resolution is deterministic: the outcome, rendered text or failure, is a
/// function of the stream and the selection alone.
pub proof fn lemma_resolution_deterministic(
    lines1: Seq<Seq<char>>,
    sel1: SelectionModel,
    lines2: Seq<Seq<char>>,
    sel2: SelectionModel,
)
    requires
        lines1 == lines2,
        sel1 == sel2,
    ensures
        run_selection_model(lines1, sel1) == run_selection_model(lines2, sel2),
{
}

} // verus!
