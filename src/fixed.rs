//! Fixed-width text fields: truncate to the capacity, pad with null code points.

use vstd::prelude::*;

verus! {

/// Capacity, in code points, of every text field of a row.
pub const FIELD_WIDTH: usize = 32;

/// A text field in its fixed-width form.
pub type FixedText = [char; 32];

/// The fixed-width form of `s`: its first `FIELD_WIDTH` code points,
/// followed by null code points up to `FIELD_WIDTH`.
pub open spec fn fixed_width(s: Seq<char>) -> Seq<char> {
    Seq::new(FIELD_WIDTH as nat, |i: int| if i < s.len() { s[i] } else { '\0' })
}

/// Encodes `s[from..to]` into a fixed-width field.
pub fn encode_fixed(s: &Vec<char>, from: usize, to: usize) -> (r: FixedText)
    requires
        from <= to <= s@.len(),
    ensures
        r@ == fixed_width(s@.subrange(from as int, to as int)),
{
    let mut r: FixedText = ['\0'; 32];
    let mut i: usize = 0;
    while i < FIELD_WIDTH
        invariant
            from <= to <= s@.len(),
            i <= FIELD_WIDTH,
            r@.len() == FIELD_WIDTH,
            forall|k: int|
                0 <= k < i ==> r@[k] == fixed_width(s@.subrange(from as int, to as int))[k],
            forall|k: int| i <= k < FIELD_WIDTH ==> r@[k] == '\0',
        decreases FIELD_WIDTH - i,
    {
        if i < to - from {
            r[i] = s[from + i];
        }
        i = i + 1;
    }
    assert(r@ =~= fixed_width(s@.subrange(from as int, to as int)));
    r
}

/// The code points of `s`, one per element.
pub fn chars_of(s: &str) -> (r: Vec<char>)
    ensures
        r@ == s@,
{
    let n = s.unicode_len();
    let mut r: Vec<char> = Vec::new();
    let mut i: usize = 0;
    while i < n
        invariant
            n == s@.len(),
            i <= n,
            r@ == s@.subrange(0, i as int),
        decreases n - i,
    {
        r.push(s.get_char(i));
        i = i + 1;
    }
    assert(r@ =~= s@);
    r
}

/// Encodes `input` into a fixed-width field: truncated to `FIELD_WIDTH`
/// code points, or padded with null code points up to it.
pub fn to_fixlen_array(input: &str) -> (r: FixedText)
    ensures
        r@ == fixed_width(input@),
{
    let cs = chars_of(input);
    let r = encode_fixed(&cs, 0, cs.len());
    assert(cs@.subrange(0, cs@.len() as int) =~= input@);
    r
}

/// Encoding is the identity on text of exactly `FIELD_WIDTH` code points,
/// keeps the first `FIELD_WIDTH` code points of longer text, and pads
/// shorter text with exactly `FIELD_WIDTH - len` null code points.
pub proof fn lemma_fixed_width_capacity(s: Seq<char>)
    ensures
        s.len() == FIELD_WIDTH ==> fixed_width(s) == s,
        s.len() >= FIELD_WIDTH ==> fixed_width(s) == s.subrange(0, FIELD_WIDTH as int),
        s.len() <= FIELD_WIDTH ==> fixed_width(s) == s + Seq::new(
            (FIELD_WIDTH - s.len()) as nat,
            |i: int| '\0',
        ),
{
    if s.len() == FIELD_WIDTH {
        assert(fixed_width(s) =~= s);
    }
    if s.len() >= FIELD_WIDTH {
        assert(fixed_width(s) =~= s.subrange(0, FIELD_WIDTH as int));
    }
    if s.len() <= FIELD_WIDTH {
        assert(fixed_width(s) =~= s + Seq::new((FIELD_WIDTH - s.len()) as nat, |i: int| '\0'));
    }
}

} // verus!
