//! The text form of a trigger set: `H:M:S` triples separated by commas.
//!
//! A field is either empty, which makes it a wildcard, or a number in
//! decimal digits: no sign and no blanks, but zeros in front are fine. So
//! `9:5:0` and `09:05:00` both name five past nine.

use vstd::prelude::*;
use vstd::slice::slice_subrange;
use vstd::utf8::encode_utf8;
use crate::trigger::{TriggerPattern, TriggerSet, MAX_HOUR, MAX_MINUTE, MAX_SECOND};

verus! {

/// The byte `,`, which separates the patterns of a set.
pub const PATTERN_SEPARATOR: u8 = 44;

/// The byte `:`, which separates the fields of a pattern.
pub const FIELD_SEPARATOR: u8 = 58;

/// The byte `0`; the other digits follow it.
pub const DIGIT_ZERO: u8 = 48;

/// Position of the first `sep` in `s` at or after `from`, or `s.len()` where
/// there is none.
pub open spec fn separator_from(s: Seq<u8>, sep: u8, from: int) -> int
    decreases s.len() - from,
{
    if from < 0 || from >= s.len() {
        s.len() as int
    } else if s[from] == sep {
        from
    } else {
        separator_from(s, sep, from + 1)
    }
}

/// The pieces of `s` between the occurrences of `sep`. There is always at
/// least one piece, and a piece may be empty.
pub open spec fn split(s: Seq<u8>, sep: u8) -> Seq<Seq<u8>>
    decreases s.len(),
{
    let cut = separator_from(s, sep, 0);
    if 0 <= cut < s.len() {
        seq![s.take(cut)] + split(s.skip(cut + 1), sep)
    } else {
        seq![s]
    }
}

/// The pieces put together again, with `sep` between neighbours.
pub open spec fn join(pieces: Seq<Seq<u8>>, sep: u8) -> Seq<u8>
    decreases pieces.len(),
{
    if pieces.len() == 0 {
        Seq::empty()
    } else if pieces.len() == 1 {
        pieces[0]
    } else {
        pieces[0] + seq![sep] + join(pieces.skip(1), sep)
    }
}

/// What `separator_from` finds: a position not before `from`, with no `sep`
/// between `from` and it, and `sep` at it unless it is the end.
pub proof fn lemma_separator_from(s: Seq<u8>, sep: u8, from: int)
    requires
        0 <= from <= s.len(),
    ensures
        from <= separator_from(s, sep, from) <= s.len(),
        forall|j: int| from <= j < separator_from(s, sep, from) ==> s[j] != sep,
        separator_from(s, sep, from) < s.len() ==> s[separator_from(s, sep, from)] == sep,
    decreases s.len() - from,
{
    if from < s.len() && s[from] != sep {
        lemma_separator_from(s, sep, from + 1);
    }
}

/// What `split` means: the pieces hold no separator, and joined with the
/// separator they give the text back.
pub proof fn lemma_split_joins(s: Seq<u8>, sep: u8)
    ensures
        join(split(s, sep), sep) == s,
        forall|i: int, j: int|
            0 <= i < split(s, sep).len() && 0 <= j < split(s, sep)[i].len() ==> split(
                s,
                sep,
            )[i][j] != sep,
    decreases s.len(),
{
    let cut = separator_from(s, sep, 0);
    lemma_separator_from(s, sep, 0);
    if cut < s.len() {
        let rest = s.skip(cut + 1);
        let tail = split(rest, sep);
        let all = split(s, sep);
        lemma_split_joins(rest, sep);
        assert(all.skip(1) =~= tail);
        assert(all[0] == s.take(cut));
        assert(join(all, sep) =~= s);
        assert forall|i: int, j: int| 0 <= i < all.len() && 0 <= j < all[i].len() implies all[i][j]
            != sep by {
            if i > 0 {
                assert(all[i] == tail[i - 1]);
            }
        }
    }
}

/// `b` is one of the ten digits.
pub open spec fn is_digit_byte(b: u8) -> bool {
    DIGIT_ZERO <= b <= DIGIT_ZERO + 9
}

/// Every byte of `s` is a digit.
pub open spec fn all_digits(s: Seq<u8>) -> bool {
    forall|i: int| 0 <= i < s.len() ==> is_digit_byte(#[trigger] s[i])
}

/// The number that a run of digits writes in decimal.
pub open spec fn digits_value(s: Seq<u8>) -> nat
    decreases s.len(),
{
    if s.len() == 0 {
        0
    } else {
        (digits_value(s.drop_last()) * 10 + (s.last() - DIGIT_ZERO)) as nat
    }
}

/// What one field of a pattern stands for: `Some(None)` for the empty field,
/// `Some(Some(v))` for a run of digits that writes a number `v <= max`,
/// `None` for any other text.
pub open spec fn field_value(field: Seq<u8>, max: u8) -> Option<Option<u8>> {
    if field.len() == 0 {
        Some(None)
    } else if all_digits(field) && digits_value(field) <= max {
        Some(Some(digits_value(field) as u8))
    } else {
        None
    }
}

/// Further digits never make a number smaller.
pub proof fn lemma_digits_value_grows(s: Seq<u8>, n: int)
    requires
        all_digits(s),
        0 <= n <= s.len(),
    ensures
        digits_value(s.take(n)) <= digits_value(s),
    decreases s.len() - n,
{
    if n < s.len() {
        let longer = s.take(n + 1);
        assert(longer.drop_last() =~= s.take(n));
        assert(longer.last() == s[n]);
        assert(is_digit_byte(s[n]));
        lemma_digits_value_grows(s, n + 1);
    } else {
        assert(s.take(n) =~= s);
    }
}

fn is_digit(b: u8) -> (r: bool)
    ensures
        r == is_digit_byte(b),
{
    DIGIT_ZERO <= b && b <= DIGIT_ZERO + 9
}

/// Reads one field of a pattern: the empty field is the wildcard, a run of
/// digits that writes a number up to `max` is that number, anything else is
/// refused.
pub fn parse_field(field: &[u8], max: u8) -> (r: Option<Option<u8>>)
    ensures
        r == field_value(field@, max),
{
    let n = field.len();
    if n == 0 {
        return Some(None);
    }
    let mut value: u8 = 0;
    let mut i: usize = 0;
    while i < n
        invariant
            n == field@.len(),
            i <= n,
            all_digits(field@.take(i as int)),
            value == digits_value(field@.take(i as int)),
            value <= max,
        decreases n - i,
    {
        let b = field[i];
        let ghost longer = field@.take(i + 1);
        proof {
            assert(longer.drop_last() =~= field@.take(i as int));
            assert(longer.last() == b);
        }
        if !is_digit(b) {
            assert(!all_digits(field@));
            return None;
        }
        let next = value as u16 * 10 + (b - DIGIT_ZERO) as u16;
        if next > max as u16 {
            proof {
                if all_digits(field@) {
                    lemma_digits_value_grows(field@, i + 1);
                }
            }
            return None;
        }
        value = next as u8;
        i += 1;
        assert(all_digits(longer)) by {
            assert forall|j: int| 0 <= j < longer.len() implies is_digit_byte(#[trigger] longer[j]) by {
                if j < longer.len() - 1 {
                    assert(longer[j] == field@.take(i - 1)[j]);
                }
            }
        }
    }
    assert(field@.take(n as int) =~= field@);
    Some(Some(value))
}

/// Why a piece of text is no pattern.
#[derive(Clone, Copy, Debug, PartialEq, Eq)]
pub enum PatternError {
    /// The piece does not have exactly three fields.
    FieldCount,
    /// The first field is neither empty nor an hour.
    Hour,
    /// The second field is neither empty nor a minute.
    Minute,
    /// The third field is neither empty nor a second.
    Second,
}

/// A piece of a text that is no pattern, and why.
#[derive(Clone, Copy, Debug, PartialEq, Eq)]
pub struct TriggerSetError {
    /// Position of the piece among the comma-separated pieces, from 0.
    pub pattern: usize,
    /// What is wrong with it.
    pub kind: PatternError,
}

/// The pattern that a piece of text stands for. The piece must have exactly
/// three fields; the first field at fault decides the error.
pub open spec fn pattern_of(piece: Seq<u8>) -> Result<TriggerPattern, PatternError> {
    let fields = split(piece, FIELD_SEPARATOR);
    if fields.len() != 3 {
        Err(PatternError::FieldCount)
    } else {
        match field_value(fields[0], MAX_HOUR) {
            None => Err(PatternError::Hour),
            Some(hour) => match field_value(fields[1], MAX_MINUTE) {
                None => Err(PatternError::Minute),
                Some(minute) => match field_value(fields[2], MAX_SECOND) {
                    None => Err(PatternError::Second),
                    Some(second) => Ok(TriggerPattern { hour, minute, second }),
                },
            },
        }
    }
}

/// The pieces of a text that are to be patterns: none for the empty text,
/// else what stands between the commas.
pub open spec fn pieces_of(text: Seq<u8>) -> Seq<Seq<u8>> {
    if text.len() == 0 {
        Seq::empty()
    } else {
        split(text, PATTERN_SEPARATOR)
    }
}

/// The patterns among `pieces`, in the order written.
pub open spec fn accepted(pieces: Seq<Seq<u8>>) -> Seq<TriggerPattern>
    decreases pieces.len(),
{
    if pieces.len() == 0 {
        Seq::empty()
    } else {
        let before = accepted(pieces.drop_last());
        match pattern_of(pieces.last()) {
            Ok(pattern) => before.push(pattern),
            Err(_) => before,
        }
    }
}

/// The pieces among `pieces` that are no patterns, in the order written,
/// each with its position and what is wrong with it.
pub open spec fn rejected(pieces: Seq<Seq<u8>>) -> Seq<TriggerSetError>
    decreases pieces.len(),
{
    if pieces.len() == 0 {
        Seq::empty()
    } else {
        let before = rejected(pieces.drop_last());
        match pattern_of(pieces.last()) {
            Ok(_) => before,
            Err(kind) => before.push(
                TriggerSetError { pattern: (pieces.len() - 1) as usize, kind },
            ),
        }
    }
}

/// The trigger set that a text stands for when every piece has to be a
/// pattern: the first piece that is none refuses the whole text.
pub open spec fn trigger_set_of(text: Seq<u8>) -> Result<Seq<TriggerPattern>, TriggerSetError> {
    let pieces = pieces_of(text);
    if rejected(pieces).len() == 0 {
        Ok(accepted(pieces))
    } else {
        Err(rejected(pieces)[0])
    }
}

/// A field that stands for a number stands for one within its limit.
pub proof fn lemma_field_value_bounded(field: Seq<u8>, max: u8)
    ensures
        field_value(field, max) matches Some(Some(v)) ==> v <= max,
{
}

/// A piece of text that is a pattern is one on the clock face.
pub proof fn lemma_pattern_of_in_range(piece: Seq<u8>)
    ensures
        pattern_of(piece) matches Ok(p) ==> p.in_range(),
{
    let fields = split(piece, FIELD_SEPARATOR);
    if fields.len() == 3 {
        lemma_field_value_bounded(fields[0], MAX_HOUR);
        lemma_field_value_bounded(fields[1], MAX_MINUTE);
        lemma_field_value_bounded(fields[2], MAX_SECOND);
    }
}

/// Position of the first `sep` in `s`, or `s.len()` where there is none.
pub fn find_separator(s: &[u8], sep: u8) -> (cut: usize)
    ensures
        cut == separator_from(s@, sep, 0),
        cut <= s@.len(),
{
    let n = s.len();
    let mut i: usize = 0;
    while i < n
        invariant
            n == s@.len(),
            i <= n,
            separator_from(s@, sep, 0) == separator_from(s@, sep, i as int),
        decreases n - i,
    {
        if s[i] == sep {
            return i;
        }
        i += 1;
    }
    i
}

/// How a text splits at its first separator.
pub proof fn lemma_split_step(s: Seq<u8>, sep: u8)
    ensures
        ({
            let cut = separator_from(s, sep, 0);
            if 0 <= cut < s.len() {
                split(s, sep) == seq![s.take(cut)] + split(s.skip(cut + 1), sep)
            } else {
                split(s, sep) == seq![s]
            }
        }),
        split(s, sep).len() >= 1,
{
}

/// Reads one pattern: three fields separated by colons, each empty or a
/// number on the clock face.
pub fn parse_pattern(piece: &[u8]) -> (r: Result<TriggerPattern, PatternError>)
    ensures
        r == pattern_of(piece@),
{
    let ghost fields = split(piece@, FIELD_SEPARATOR);
    let n = piece.len();
    let c1 = find_separator(piece, FIELD_SEPARATOR);
    proof {
        lemma_split_step(piece@, FIELD_SEPARATOR);
    }
    if c1 == n {
        return Err(PatternError::FieldCount);
    }
    let first = slice_subrange(piece, 0, c1);
    let after_first = slice_subrange(piece, c1 + 1, n);
    assert(first@ =~= piece@.take(c1 as int));
    assert(after_first@ =~= piece@.skip(c1 + 1));

    let n1 = after_first.len();
    let c2 = find_separator(after_first, FIELD_SEPARATOR);
    proof {
        lemma_split_step(after_first@, FIELD_SEPARATOR);
    }
    if c2 == n1 {
        assert(fields.len() == 2);
        return Err(PatternError::FieldCount);
    }
    let second = slice_subrange(after_first, 0, c2);
    let third = slice_subrange(after_first, c2 + 1, n1);
    assert(second@ =~= after_first@.take(c2 as int));
    assert(third@ =~= after_first@.skip(c2 + 1));

    let c3 = find_separator(third, FIELD_SEPARATOR);
    proof {
        lemma_split_step(third@, FIELD_SEPARATOR);
        if c3 < third@.len() {
            lemma_split_step(third@.skip(c3 + 1), FIELD_SEPARATOR);
        }
    }
    if c3 != third.len() {
        assert(fields.len() >= 4);
        return Err(PatternError::FieldCount);
    }
    assert(fields =~= seq![first@, second@, third@]);

    let hour = match parse_field(first, MAX_HOUR) {
        Some(hour) => hour,
        None => {
            return Err(PatternError::Hour);
        },
    };
    let minute = match parse_field(second, MAX_MINUTE) {
        Some(minute) => minute,
        None => {
            return Err(PatternError::Minute);
        },
    };
    let second = match parse_field(third, MAX_SECOND) {
        Some(second) => second,
        None => {
            return Err(PatternError::Second);
        },
    };
    Ok(TriggerPattern { hour, minute, second })
}

/// Every piece is accepted or rejected, and what is accepted lies on the
/// clock face.
pub proof fn lemma_accepted_and_rejected(pieces: Seq<Seq<u8>>)
    ensures
        accepted(pieces).len() + rejected(pieces).len() == pieces.len(),
        forall|i: int| 0 <= i < accepted(pieces).len() ==> (#[trigger] accepted(pieces)[i]).in_range(),
        forall|i: int|
            0 <= i < rejected(pieces).len() ==> (#[trigger] rejected(pieces)[i]).pattern
                < pieces.len(),
    decreases pieces.len(),
{
    if pieces.len() > 0 {
        lemma_accepted_and_rejected(pieces.drop_last());
        lemma_pattern_of_in_range(pieces.last());
    }
}

/// What reading a text yields: the patterns it holds, and the pieces that
/// were refused.
pub struct TriggerScan {
    /// The pieces that are patterns, in the order written.
    pub set: TriggerSet,
    /// The pieces that are none, in the order written.
    pub faults: Vec<TriggerSetError>,
}

/// Reads a trigger set from its text form, piece by piece.
///
/// The empty text holds no pieces. Any other text is cut at its commas. A
/// piece that is a pattern joins the set; one that is none is reported and
/// left out, and the pieces after it are read all the same.
pub fn scan_trigger_bytes(text: &[u8]) -> (scan: TriggerScan)
    ensures
        scan.set@ == accepted(pieces_of(text@)),
        scan.faults@ == rejected(pieces_of(text@)),
{
    let ghost pieces = pieces_of(text@);
    let mut patterns: Vec<TriggerPattern> = Vec::new();
    let mut faults: Vec<TriggerSetError> = Vec::new();
    if text.len() == 0 {
        return TriggerScan { set: TriggerSet::empty(), faults };
    }
    let mut rest = text;
    let mut k: usize = 0;
    loop
        invariant
            text@.len() > 0,
            pieces == split(text@, PATTERN_SEPARATOR),
            k < pieces.len(),
            pieces.skip(k as int) == split(rest@, PATTERN_SEPARATOR),
            k + rest@.len() <= text@.len() <= usize::MAX,
            patterns@ == accepted(pieces.take(k as int)),
            faults@ == rejected(pieces.take(k as int)),
        decreases rest@.len(),
    {
        let n = rest.len();
        let cut = find_separator(rest, PATTERN_SEPARATOR);
        let piece = slice_subrange(rest, 0, cut);
        proof {
            lemma_split_step(rest@, PATTERN_SEPARATOR);
            assert(piece@ =~= rest@.take(cut as int));
            assert(pieces[k as int] == pieces.skip(k as int)[0]);
            let upto = pieces.take(k + 1);
            assert(upto.last() == piece@);
            assert(upto.drop_last() =~= pieces.take(k as int));
        }
        match parse_pattern(piece) {
            Err(kind) => {
                faults.push(TriggerSetError { pattern: k, kind });
            },
            Ok(pattern) => {
                patterns.push(pattern);
            },
        }
        if cut == n {
            proof {
                assert(pieces.skip(k as int).len() == 1);
                assert(pieces.take(k + 1) =~= pieces);
                lemma_accepted_and_rejected(pieces);
            }
            return TriggerScan { set: TriggerSet::from_in_range(patterns), faults };
        }
        let tail = slice_subrange(rest, cut + 1, n);
        proof {
            assert(tail@ =~= rest@.skip(cut + 1));
            assert(pieces.skip(k + 1) =~= pieces.skip(k as int).skip(1));
            assert(pieces.skip(k as int).skip(1) =~= split(tail@, PATTERN_SEPARATOR));
            lemma_split_step(tail@, PATTERN_SEPARATOR);
        }
        k += 1;
        rest = tail;
    }
}

/// `r` is what reading `text` yields when every piece has to be a pattern.
pub open spec fn is_reading_of(text: Seq<u8>, r: Result<TriggerSet, TriggerSetError>) -> bool {
    match r {
        Ok(set) => trigger_set_of(text) == Ok::<Seq<TriggerPattern>, TriggerSetError>(set@),
        Err(e) => trigger_set_of(text) == Err::<Seq<TriggerPattern>, TriggerSetError>(e),
    }
}

/// Reads a trigger set from its text form, and insists on every piece: the
/// first piece that is no pattern refuses the whole text.
pub fn parse_trigger_bytes(text: &[u8]) -> (r: Result<TriggerSet, TriggerSetError>)
    ensures
        is_reading_of(text@, r),
{
    let scan = scan_trigger_bytes(text);
    if scan.faults.len() == 0 {
        Ok(scan.set)
    } else {
        Err(scan.faults[0])
    }
}

/// Reads a trigger set from a string, piece by piece, by its bytes.
pub fn scan_trigger_set(text: &str) -> (scan: TriggerScan)
    ensures
        scan.set@ == accepted(pieces_of(encode_utf8(text@))),
        scan.faults@ == rejected(pieces_of(encode_utf8(text@))),
{
    scan_trigger_bytes(text.as_bytes())
}

/// Reads a trigger set from a string, by its bytes, and insists on every
/// piece.
pub fn parse_trigger_set(text: &str) -> (r: Result<TriggerSet, TriggerSetError>)
    ensures
        is_reading_of(encode_utf8(text@), r),
{
    parse_trigger_bytes(text.as_bytes())
}

} // verus!
