//! Rows of the table and the decoder that builds one from an `insert` line.

use vstd::prelude::*;
use crate::fixed::{FixedText, fixed_width, encode_fixed, chars_of};
use crate::grammar::{
    Spans, ascii_digit, matches_at, is_first_match, match_at, id_start, id_end, username_start, username_end,
    email_start, email_end,
};

verus! {

/// One record of the fixed schema.
#[derive(Clone, Copy, Debug)]
pub struct Schema {
    /// The numeric id; not required to be unique.
    pub id: u8,
    /// The username in fixed-width form.
    pub username: FixedText,
    /// The email in fixed-width form.
    pub email: FixedText,
}

impl View for Schema {
    type V = (u8, Seq<char>, Seq<char>);

    open spec fn view(&self) -> (u8, Seq<char>, Seq<char>) {
        (self.id, self.username@, self.email@)
    }
}

/// Why an `insert` line could not be decoded into a row.
#[derive(Clone, Copy, Debug, PartialEq, Eq, Structural)]
pub enum ParseError {
    /// No part of the line matches the grammar.
    NoRegexMatch,
    /// The leftmost match has an `<id>` above 255.
    IdOutOfRange,
    /// The leftmost match has an `<id>` with a digit outside `[0-9]`.
    InvalidId,
}

/// Value of a decimal numeral written with ASCII digits.
pub open spec fn decimal_value(s: Seq<char>) -> nat
    decreases s.len(),
{
    if s.len() == 0 {
        0
    } else {
        decimal_value(s.drop_last()) * 10 + ((s.last() as u32) - 48) as nat
    }
}

/// Whether every code point of `s` is one of `[0-9]`.
pub open spec fn is_ascii_numeral(s: Seq<char>) -> bool {
    forall|k: int| 0 <= k < s.len() ==> ascii_digit(#[trigger] s[k])
}

/// Whether every code point of `s[from..to]` is one of `[0-9]`.
fn all_ascii_digits(s: &Vec<char>, from: usize, to: usize) -> (r: bool)
    requires
        from <= to <= s@.len(),
    ensures
        r == is_ascii_numeral(s@.subrange(from as int, to as int)),
{
    let mut i: usize = from;
    while i < to
        invariant
            from <= i <= to <= s@.len(),
            forall|k: int| from <= k < i ==> ascii_digit(#[trigger] s@[k]),
        decreases to - i,
    {
        if !('0' <= s[i] && s[i] <= '9') {
            assert(!ascii_digit(s@.subrange(from as int, to as int)[i - from]));
            return false;
        }
        i = i + 1;
    }
    assert forall|k: int| 0 <= k < to - from implies ascii_digit(
        #[trigger] s@.subrange(from as int, to as int)[k],
    ) by {
        assert(s@.subrange(from as int, to as int)[k] == s@[from + k]);
    }
    true
}

/// The row that the match starting at `p` decodes to, or the error.
pub open spec fn decode_at(s: Seq<char>, p: int) -> Result<(u8, Seq<char>, Seq<char>), ParseError> {
    let digits = s.subrange(id_start(p), id_end(s, p));
    let id = decimal_value(digits);
    if !is_ascii_numeral(digits) {
        Err(ParseError::InvalidId)
    } else if id <= 255 {
        Ok(
            (
                id as u8,
                fixed_width(s.subrange(username_start(s, p), username_end(s, p))),
                fixed_width(s.subrange(email_start(s, p), email_end(s, p))),
            ),
        )
    } else {
        Err(ParseError::IdOutOfRange)
    }
}

/// What an `insert` line decodes to: the row of its leftmost match (or
/// the error in that match's `<id>`), or `NoRegexMatch` when nothing in it
/// matches.
pub open spec fn decode(s: Seq<char>) -> Result<(u8, Seq<char>, Seq<char>), ParseError> {
    if exists|p: int| matches_at(s, p) {
        decode_at(s, choose|p: int| is_first_match(s, p))
    } else {
        Err(ParseError::NoRegexMatch)
    }
}

/// The value of the digits `s[from..to]`, or `None` above 255.
fn parse_id(s: &Vec<char>, from: usize, to: usize) -> (r: Option<u8>)
    requires
        from <= to <= s@.len(),
        forall|k: int| from <= k < to ==> '0' <= #[trigger] s@[k] <= '9',
    ensures
        r matches Some(v) ==> v as nat == decimal_value(s@.subrange(from as int, to as int)),
        r is None ==> decimal_value(s@.subrange(from as int, to as int)) > 255,
{
    let mut v: u32 = 0;
    let mut i: usize = from;
    while i < to
        invariant
            from <= i <= to <= s@.len(),
            forall|k: int| from <= k < to ==> '0' <= #[trigger] s@[k] <= '9',
            v <= 256,
            v < 256 ==> v as nat == decimal_value(s@.subrange(from as int, i as int)),
            v == 256 ==> decimal_value(s@.subrange(from as int, i as int)) > 255,
        decreases to - i,
    {
        let d = (s[i] as u32) - 48;
        proof {
            let pre = s@.subrange(from as int, i as int);
            let next = s@.subrange(from as int, i + 1);
            assert(next.drop_last() =~= pre);
            assert(next.last() == s@[i as int]);
        }
        if v < 256 {
            let w = v * 10 + d;
            v = if w > 255 { 256 } else { w };
        }
        i = i + 1;
    }
    if v < 256 {
        Some(v as u8)
    } else {
        None
    }
}

/// Builds the row of the match with spans `sp` that starts at `p`.
fn decode_spans(s: &Vec<char>, p: usize, sp: Spans) -> (r: Result<Schema, ParseError>)
    requires
        matches_at(s@, p as int),
        sp.id.0 as int == id_start(p as int),
        sp.id.1 as int == id_end(s@, p as int),
        sp.username.0 as int == username_start(s@, p as int),
        sp.username.1 as int == username_end(s@, p as int),
        sp.email.0 as int == email_start(s@, p as int),
        sp.email.1 as int == email_end(s@, p as int),
        email_end(s@, p as int) <= s@.len(),
    ensures
        match r {
            Ok(row) => decode_at(s@, p as int) == Ok::<_, ParseError>(row@),
            Err(e) => decode_at(s@, p as int) == Err::<(u8, Seq<char>, Seq<char>), _>(e),
        },
{
    if !all_ascii_digits(s, sp.id.0, sp.id.1) {
        return Err(ParseError::InvalidId);
    }
    proof {
        assert forall|k: int| sp.id.0 <= k < sp.id.1 implies '0' <= #[trigger] s@[k] <= '9' by {
            assert(s@[k] == s@.subrange(sp.id.0 as int, sp.id.1 as int)[k - sp.id.0]);
        }
    }
    match parse_id(s, sp.id.0, sp.id.1) {
        None => Err(ParseError::IdOutOfRange),
        Some(id) => {
            let username = encode_fixed(s, sp.username.0, sp.username.1);
            let email = encode_fixed(s, sp.email.0, sp.email.1);
            Ok(Schema { id, username, email })
        },
    }
}

/// Decodes an `insert` line: the leftmost match of the grammar gives the
/// row, its username and email in fixed-width form.
pub fn parse_insert(input_str: &str) -> (r: Result<Schema, ParseError>)
    ensures
        match r {
            Ok(row) => decode(input_str@) == Ok::<_, ParseError>(row@),
            Err(e) => decode(input_str@) == Err::<(u8, Seq<char>, Seq<char>), _>(e),
        },
{
    let s = chars_of(input_str);
    let mut p: usize = 0;
    while p < s.len()
        invariant
            s@ == input_str@,
            p <= s@.len(),
            forall|q: int| 0 <= q < p ==> !matches_at(s@, q),
        decreases s@.len() - p,
    {
        match match_at(&s, p) {
            Some(sp) => {
                proof {
                    assert(is_first_match(s@, p as int));
                    let c = choose|q: int| is_first_match(s@, q);
                    assert(c == p as int);
                }
                return decode_spans(&s, p, sp);
            },
            None => {},
        }
        p = p + 1;
    }
    proof {
        assert forall|q: int| !matches_at(s@, q) by {
            if q >= p {
                assert(!(q + 7 <= s@.len()));
            }
        }
    }
    Err(ParseError::NoRegexMatch)
}

} // verus!
