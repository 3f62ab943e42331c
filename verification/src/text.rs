//! Character-level string utilities: equality, prefix test, splitting on a
//! separator, and decimal parsing with the lenient zero fallback that the
//! data-file format specifies for numeric fields.

use vstd::prelude::*;

verus! {

/// Exact character-for-character string equality.
pub fn str_eq(a: &str, b: &str) -> (r: bool)
    ensures
        r == (a@ == b@),
{
    let a_len = a.unicode_len();
    let b_len = b.unicode_len();
    if a_len != b_len {
        return false;
    }
    let mut i: usize = 0;
    while i < a_len
        invariant
            a_len == a@.len(),
            b_len == b@.len(),
            a_len == b_len,
            i <= a_len,
            forall|j: int| 0 <= j < i ==> a@[j] == b@[j],
        decreases a_len - i,
    {
        if a.get_char(i) != b.get_char(i) {
            return false;
        }
        i = i + 1;
    }
    proof {
        assert(a@ =~= b@);
    }
    true
}

/// Index of the first occurrence of `sep` in `s`, or `s.len()` if absent.
pub open spec fn first_sep(s: Seq<char>, sep: char) -> nat
    decreases s.len(),
{
    if s.len() == 0 {
        0
    } else if s[0] == sep {
        0
    } else {
        1 + first_sep(s.drop_first(), sep)
    }
}

/// A scan that found no separator before `i`, and one at `i` unless `i` is the
/// end, has found exactly `first_sep`.
pub proof fn lemma_first_sep_is(s: Seq<char>, sep: char, i: int)
    requires
        0 <= i <= s.len(),
        forall|j: int| 0 <= j < i ==> s[j] != sep,
        i < s.len() ==> s[i] == sep,
    ensures
        first_sep(s, sep) == i,
    decreases s.len(),
{
    if s.len() == 0 {
    } else if s[0] == sep {
        assert(i == 0);
    } else {
        assert(i > 0);
        assert forall|j: int| 0 <= j < i - 1 implies s.drop_first()[j] != sep by {
            assert(s.drop_first()[j] == s[j + 1]);
        }
        lemma_first_sep_is(s.drop_first(), sep, i - 1);
    }
}

/// The fields of `s` split on `sep`: always one more field than there are
/// separators, so an empty string yields one empty field.
pub open spec fn split_chars(s: Seq<char>, sep: char) -> Seq<Seq<char>>
    decreases s.len(),
{
    let i = first_sep(s, sep);
    if i >= s.len() {
        seq![s]
    } else {
        seq![s.subrange(0, i as int)] + split_chars(s.subrange(i as int + 1, s.len() as int), sep)
    }
}

/// Splits `s` into fields on `sep`, as `split_chars` describes.
pub fn split_str(s: &str, sep: char) -> (r: Vec<String>)
    ensures
        r.deep_view() == split_chars(s@, sep),
{
    let len = s.unicode_len();
    let mut fields: Vec<String> = Vec::new();
    let mut start: usize = 0;
    proof {
        assert(s@.subrange(0, len as int) =~= s@);
        assert(fields.deep_view() =~= Seq::<Seq<char>>::empty());
        assert(Seq::<Seq<char>>::empty() + split_chars(s@, sep) =~= split_chars(s@, sep));
    }
    loop
        invariant_except_break
            split_chars(s@, sep) == fields.deep_view() + split_chars(
                s@.subrange(start as int, len as int),
                sep,
            ),
        invariant
            len == s@.len(),
            start <= len,
        ensures
            fields.deep_view() == split_chars(s@, sep),
        decreases len - start + 1,
    {
        let ghost rest = s@.subrange(start as int, len as int);
        let mut j: usize = start;
        while j < len && s.get_char(j) != sep
            invariant
                len == s@.len(),
                start <= j <= len,
                forall|k: int| start <= k < j ==> s@[k] != sep,
            decreases len - j,
        {
            j = j + 1;
        }
        proof {
            assert forall|k: int| 0 <= k < j - start implies rest[k] != sep by {
                assert(rest[k] == s@[start + k]);
            }
            if j < len {
                assert(rest[j - start] == s@[j as int]);
            }
            lemma_first_sep_is(rest, sep, j - start);
        }
        let field = s.substring_char(start, j).to_owned();
        let ghost old_fields = fields.deep_view();
        fields.push(field);
        proof {
            assert(fields.deep_view() =~= old_fields.push(field@));
        }
        if j == len {
            proof {
                assert(field@ =~= rest);
                assert(split_chars(rest, sep) =~= seq![rest]);
                assert(fields.deep_view() =~= old_fields + seq![rest]);
            }
            break;
        }
        proof {
            let fs = (j - start) as int;
            assert(split_chars(rest, sep) == seq![rest.subrange(0, fs)] + split_chars(
                rest.subrange(fs + 1, rest.len() as int),
                sep,
            ));
            assert(field@ =~= rest.subrange(0, fs));
            assert(rest.subrange(fs + 1, rest.len() as int) =~= s@.subrange(
                j + 1,
                len as int,
            ));
            assert(fields.deep_view() + split_chars(s@.subrange(j + 1, len as int), sep)
                =~= old_fields + split_chars(rest, sep));
        }
        start = j + 1;
    }
    fields
}

pub open spec fn is_dec_digit(c: char) -> bool {
    48 <= c as u32 <= 57
}

pub open spec fn dec_digit_val(c: char) -> nat {
    if is_dec_digit(c) {
        (c as u32 - 48) as nat
    } else {
        0
    }
}

/// Value of a digit string read as a base-10 numeral.
pub open spec fn dec_value(s: Seq<char>) -> nat
    decreases s.len(),
{
    if s.len() == 0 {
        0
    } else {
        dec_value(s.drop_last()) * 10 + dec_digit_val(s.last())
    }
}

pub open spec fn all_dec_digits(s: Seq<char>) -> bool {
    forall|i: int| 0 <= i < s.len() ==> is_dec_digit(s[i])
}

/// The digits of a decimal numeral: an optional leading `+` is skipped.
pub open spec fn uint_body(s: Seq<char>) -> Seq<char> {
    if s.len() > 0 && s[0] == '+' {
        s.drop_first()
    } else {
        s
    }
}

/// Whether `s` reads as a machine-sized unsigned decimal integer.
pub open spec fn parses_as_uint(s: Seq<char>) -> bool {
    &&& uint_body(s).len() > 0
    &&& all_dec_digits(uint_body(s))
    &&& dec_value(uint_body(s)) <= usize::MAX
}

/// The lenient reading of a numeric field: its decimal value, or zero when it
/// does not read as one. The data-file format treats malformed offsets and
/// intervals as zero rather than rejecting the record.
pub open spec fn lenient_uint(s: Seq<char>) -> nat {
    if parses_as_uint(s) {
        dec_value(uint_body(s))
    } else {
        0
    }
}

/// Reading more digits never lowers a numeral's value.
proof fn lemma_dec_value_prefix(s: Seq<char>, k: int)
    requires
        0 <= k <= s.len(),
    ensures
        dec_value(s.subrange(0, k)) <= dec_value(s),
    decreases s.len() - k,
{
    if k == s.len() {
        assert(s.subrange(0, k) =~= s);
    } else {
        let t = s.subrange(0, k + 1);
        assert(t.drop_last() =~= s.subrange(0, k));
        assert(dec_value(s.subrange(0, k)) * 10 >= dec_value(s.subrange(0, k)));
        lemma_dec_value_prefix(s, k + 1);
    }
}

/// Parses a numeric field leniently: the decimal value, or zero on anything
/// that does not read as a machine-sized unsigned decimal integer.
pub fn parse_lenient_uint(s: &str) -> (r: usize)
    ensures
        r == lenient_uint(s@),
{
    let len = s.unicode_len();
    let start: usize = if len > 0 && s.get_char(0) == '+' {
        1
    } else {
        0
    };
    let ghost body = uint_body(s@);
    proof {
        assert(body =~= s@.subrange(start as int, len as int));
    }
    if start == len {
        return 0;
    }
    let mut acc: u128 = 0;
    let mut i: usize = start;
    while i < len
        invariant
            len == s@.len(),
            start <= i <= len,
            start < len,
            body == uint_body(s@),
            body == s@.subrange(start as int, len as int),
            acc == dec_value(body.subrange(0, i - start)),
            acc <= usize::MAX as u128,
            forall|k: int| 0 <= k < i - start ==> is_dec_digit(body[k]),
        decreases len - i,
    {
        let c = s.get_char(i);
        let cv = c as u32;
        if cv < 48 || cv > 57 {
            proof {
                assert(body[i - start] == s@[i as int]);
                assert(!is_dec_digit(body[i - start]));
                assert(!all_dec_digits(body));
                assert(!parses_as_uint(s@));
            }
            return 0;
        }
        let d = (cv - 48) as u128;
        let next = acc * 10 + d;
        proof {
            let p = body.subrange(0, i - start + 1);
            assert(p.drop_last() =~= body.subrange(0, i - start));
            assert(p.last() == s@[i as int]);
            assert(is_dec_digit(p.last()));
            assert(dec_digit_val(p.last()) == d);
            assert(dec_value(p) == acc * 10 + d);
        }
        if next > usize::MAX as u128 {
            proof {
                lemma_dec_value_prefix(body, i - start + 1);
                assert(dec_value(body) > usize::MAX);
                assert(!parses_as_uint(s@));
            }
            return 0;
        }
        acc = next;
        i = i + 1;
    }
    proof {
        assert(body.subrange(0, (len - start) as int) =~= body);
        assert(parses_as_uint(s@));
    }
    acc as usize
}

/// First position of `x` in `notes`, if it occurs at all.
pub fn find_note(notes: &Vec<String>, x: &str) -> (r: Option<usize>)
    ensures
        match r {
            Some(i) => {
                &&& i < notes.len()
                &&& notes.deep_view()[i as int] == x@
                &&& forall|j: int| 0 <= j < i ==> notes.deep_view()[j] != x@
            },
            None => !notes.deep_view().contains(x@),
        },
{
    let mut i: usize = 0;
    while i < notes.len()
        invariant
            i <= notes.len(),
            forall|j: int| 0 <= j < i ==> notes.deep_view()[j] != x@,
        decreases notes.len() - i,
    {
        if str_eq(notes[i].as_str(), x) {
            return Some(i);
        }
        i = i + 1;
    }
    proof {
        assert forall|j: int| 0 <= j < notes.deep_view().len() implies notes.deep_view()[j] != x@
        by {}
    }
    None
}

pub open spec fn starts_with_chars(s: Seq<char>, prefix: Seq<char>) -> bool {
    prefix.len() <= s.len() && s.subrange(0, prefix.len() as int) == prefix
}

/// Whether `s` begins with `prefix`, character for character.
pub fn str_starts_with(s: &str, prefix: &str) -> (r: bool)
    ensures
        r == starts_with_chars(s@, prefix@),
{
    let p_len = prefix.unicode_len();
    let s_len = s.unicode_len();
    if p_len > s_len {
        return false;
    }
    let mut i: usize = 0;
    while i < p_len
        invariant
            p_len == prefix@.len(),
            s_len == s@.len(),
            p_len <= s_len,
            i <= p_len,
            forall|j: int| 0 <= j < i ==> s@[j] == prefix@[j],
        decreases p_len - i,
    {
        if s.get_char(i) != prefix.get_char(i) {
            proof {
                assert(s@.subrange(0, p_len as int)[i as int] != prefix@[i as int]);
            }
            return false;
        }
        i = i + 1;
    }
    proof {
        assert(s@.subrange(0, p_len as int) =~= prefix@);
    }
    true
}

} // verus!
