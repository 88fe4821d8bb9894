//! The grammar of an `insert` statement:
//! `insert <id> <username> <email>`, where `<id>` is one or more decimal
//! digits (Unicode `\d`), `<username>` one or more word characters, and
//! `<email>` is `word-chars '@' word-chars '.' word-chars`.
//!
//! A match may start anywhere in the line and need not reach its end; the
//! leftmost one counts. Every repetition is followed by a character outside
//! its class (or by the end of the match), so at a given start a match, if
//! there is one, takes each repetition to its longest run.

use vstd::prelude::*;

verus! {

/// Whether a non-ASCII code point is a Unicode word character
/// (UTS#18 Annex C: Alphabetic, Join_Control, Decimal_Number, Mark or
/// Connector_Punctuation).
pub uninterp spec fn unicode_word_char(c: char) -> bool;

/// ASCII word characters: `[0-9A-Za-z_]`.
pub open spec fn ascii_word_char(c: char) -> bool {
    ('0' <= c && c <= '9') || ('A' <= c && c <= 'Z') || ('a' <= c && c <= 'z') || c == '_'
}

/// The class `\w` of the grammar.
pub open spec fn is_word(c: char) -> bool {
    if (c as u32) < 128 {
        ascii_word_char(c)
    } else {
        unicode_word_char(c)
    }
}

/// Whether a non-ASCII code point is a Unicode decimal digit
/// (general category Decimal_Number).
pub uninterp spec fn unicode_decimal_digit(c: char) -> bool;

/// ASCII decimal digits: `[0-9]`.
pub open spec fn ascii_digit(c: char) -> bool {
    '0' <= c && c <= '9'
}

/// The class `\d` of `<id>`.
pub open spec fn is_digit(c: char) -> bool {
    if (c as u32) < 128 {
        ascii_digit(c)
    } else {
        unicode_decimal_digit(c)
    }
}

/// Relies on regex's `\d`: with Unicode on (regex's default) it is the
/// Decimal_Number category, which below U+0080 holds only `[0-9]`. The
/// pattern `\A\d\z` is valid, so compiling it succeeds.
#[verifier::external_body]
fn is_decimal_digit(c: char) -> (r: bool)
    ensures
        r == (if (c as u32) < 128 {
            ascii_digit(c)
        } else {
            unicode_decimal_digit(c)
        }),
{
    let mut buf = [0u8; 4];
    regex::Regex::new(r"\A\d\z").map_or(false, |re| re.is_match(c.encode_utf8(&mut buf)))
}

/// Relies on regex_syntax::is_word_character, the table behind `\w` in
/// regex: `[0-9A-Za-z_]` on ASCII, the Unicode word property elsewhere.
/// It panics only without the crate's `unicode-perl` feature, which is on.
#[verifier::external_body]
fn is_word_char(c: char) -> (r: bool)
    ensures
        r == (if (c as u32) < 128 {
            ascii_word_char(c)
        } else {
            unicode_word_char(c)
        }),
{
    regex_syntax::is_word_character(c)
}

/// End of the longest run of digits in `s` that starts at `i`.
pub open spec fn digit_run_end(s: Seq<char>, i: int) -> int
    decreases s.len() - i,
{
    if 0 <= i < s.len() && is_digit(s[i]) {
        digit_run_end(s, i + 1)
    } else {
        i
    }
}

/// End of the longest run of word characters in `s` that starts at `i`.
pub open spec fn word_run_end(s: Seq<char>, i: int) -> int
    decreases s.len() - i,
{
    if 0 <= i < s.len() && is_word(s[i]) {
        word_run_end(s, i + 1)
    } else {
        i
    }
}

/// A run of digits from `i` that stops before a non-digit (or the end)
/// at `j` ends at `j`.
pub proof fn lemma_digit_run_stops(s: Seq<char>, i: int, j: int)
    requires
        0 <= i <= j <= s.len(),
        forall|k: int| i <= k < j ==> is_digit(#[trigger] s[k]),
        j == s.len() || !is_digit(s[j]),
    ensures
        digit_run_end(s, i) == j,
    decreases j - i,
{
    if i < j {
        lemma_digit_run_stops(s, i + 1, j);
    }
}

/// A run of word characters from `i` that stops before a non-word
/// character (or the end) at `j` ends at `j`.
pub proof fn lemma_word_run_stops(s: Seq<char>, i: int, j: int)
    requires
        0 <= i <= j <= s.len(),
        forall|k: int| i <= k < j ==> is_word(#[trigger] s[k]),
        j == s.len() || !is_word(s[j]),
    ensures
        word_run_end(s, i) == j,
    decreases j - i,
{
    if i < j {
        lemma_word_run_stops(s, i + 1, j);
    }
}

/// The literal that opens a match: the keyword and one space.
pub open spec fn insert_keyword() -> Seq<char> {
    seq!['i', 'n', 's', 'e', 'r', 't', ' ']
}

/// Start of `<id>` in a match that starts at `p`.
pub open spec fn id_start(p: int) -> int {
    p + 7
}

/// End of `<id>` in a match that starts at `p`.
pub open spec fn id_end(s: Seq<char>, p: int) -> int {
    digit_run_end(s, id_start(p))
}

/// Start of `<username>` in a match that starts at `p`.
pub open spec fn username_start(s: Seq<char>, p: int) -> int {
    id_end(s, p) + 1
}

/// End of `<username>` in a match that starts at `p`.
pub open spec fn username_end(s: Seq<char>, p: int) -> int {
    word_run_end(s, username_start(s, p))
}

/// Start of `<email>` in a match that starts at `p`.
pub open spec fn email_start(s: Seq<char>, p: int) -> int {
    username_end(s, p) + 1
}

/// Position of the `@` of `<email>` in a match that starts at `p`.
pub open spec fn at_sign(s: Seq<char>, p: int) -> int {
    word_run_end(s, email_start(s, p))
}

/// Position of the `.` of `<email>` in a match that starts at `p`.
pub open spec fn dot(s: Seq<char>, p: int) -> int {
    word_run_end(s, at_sign(s, p) + 1)
}

/// End of `<email>` (and of the match) in a match that starts at `p`.
pub open spec fn email_end(s: Seq<char>, p: int) -> int {
    word_run_end(s, dot(s, p) + 1)
}

/// Whether a match of the grammar starts at position `p` of `s`.
pub open spec fn matches_at(s: Seq<char>, p: int) -> bool {
    &&& 0 <= p
    &&& p + 7 <= s.len()
    &&& s.subrange(p, p + 7) == insert_keyword()
    &&& id_end(s, p) > id_start(p)
    &&& id_end(s, p) < s.len() && s[id_end(s, p)] == ' '
    &&& username_end(s, p) > username_start(s, p)
    &&& username_end(s, p) < s.len() && s[username_end(s, p)] == ' '
    &&& at_sign(s, p) > email_start(s, p)
    &&& at_sign(s, p) < s.len() && s[at_sign(s, p)] == '@'
    &&& dot(s, p) > at_sign(s, p) + 1
    &&& dot(s, p) < s.len() && s[dot(s, p)] == '.'
    &&& email_end(s, p) > dot(s, p) + 1
}

/// Whether `p` is the start of the leftmost match in `s`.
pub open spec fn is_first_match(s: Seq<char>, p: int) -> bool {
    matches_at(s, p) && forall|q: int| 0 <= q < p ==> !matches_at(s, q)
}

/// End of the run of digits in `s` that starts at `i`.
pub fn digit_run(s: &Vec<char>, i: usize) -> (r: usize)
    requires
        i <= s@.len(),
    ensures
        r as int == digit_run_end(s@, i as int),
        i <= r <= s@.len(),
{
    let mut j: usize = i;
    while j < s.len() && is_decimal_digit(s[j])
        invariant
            i <= j <= s@.len(),
            digit_run_end(s@, i as int) == digit_run_end(s@, j as int),
        decreases s@.len() - j,
    {
        j = j + 1;
    }
    j
}

/// End of the run of word characters in `s` that starts at `i`.
pub fn word_run(s: &Vec<char>, i: usize) -> (r: usize)
    requires
        i <= s@.len(),
    ensures
        r as int == word_run_end(s@, i as int),
        i <= r <= s@.len(),
{
    let mut j: usize = i;
    while j < s.len() && is_word_char(s[j])
        invariant
            i <= j <= s@.len(),
            word_run_end(s@, i as int) == word_run_end(s@, j as int),
        decreases s@.len() - j,
    {
        j = j + 1;
    }
    j
}

/// Whether the keyword and its space stand at position `p` of `s`.
fn keyword_at(s: &Vec<char>, p: usize) -> (r: bool)
    ensures
        r == (p + 7 <= s@.len() && s@.subrange(p as int, p + 7) == insert_keyword()),
{
    if p > s.len() || s.len() - p < 7 {
        return false;
    }
    let r = s[p] == 'i' && s[p + 1] == 'n' && s[p + 2] == 's' && s[p + 3] == 'e' && s[p + 4]
        == 'r' && s[p + 5] == 't' && s[p + 6] == ' ';
    proof {
        let sub = s@.subrange(p as int, p + 7);
        if r {
            assert(sub =~= insert_keyword());
        } else {
            assert(sub[0] == s@[p as int]);
            assert(sub[6] == s@[p + 6]);
            assert(sub != insert_keyword()) by {
                if sub == insert_keyword() {
                    assert(sub[1] == insert_keyword()[1]);
                    assert(sub[2] == insert_keyword()[2]);
                    assert(sub[3] == insert_keyword()[3]);
                    assert(sub[4] == insert_keyword()[4]);
                    assert(sub[5] == insert_keyword()[5]);
                }
            }
        }
    }
    r
}

/// Positions of the fields of a match: starts and ends of `<id>`,
/// `<username>` and `<email>`.
pub struct Spans {
    pub id: (usize, usize),
    pub username: (usize, usize),
    pub email: (usize, usize),
}

/// The spans of the match that starts at `p`, if one does.
pub fn match_at(s: &Vec<char>, p: usize) -> (r: Option<Spans>)
    ensures
        r is Some <==> matches_at(s@, p as int),
        r matches Some(sp) ==> {
            &&& sp.id.0 as int == id_start(p as int)
            &&& sp.id.1 as int == id_end(s@, p as int)
            &&& sp.username.0 as int == username_start(s@, p as int)
            &&& sp.username.1 as int == username_end(s@, p as int)
            &&& sp.email.0 as int == email_start(s@, p as int)
            &&& sp.email.1 as int == email_end(s@, p as int)
            &&& email_end(s@, p as int) <= s@.len()
        },
{
    let n = s.len();
    if !keyword_at(s, p) {
        return None;
    }
    let a = p + 7;
    let b = digit_run(s, a);
    if b == a || b >= n || s[b] != ' ' {
        return None;
    }
    let c = b + 1;
    let d = word_run(s, c);
    if d == c || d >= n || s[d] != ' ' {
        return None;
    }
    let e = d + 1;
    let at = word_run(s, e);
    if at == e || at >= n || s[at] != '@' {
        return None;
    }
    let dt = word_run(s, at + 1);
    if dt == at + 1 || dt >= n || s[dt] != '.' {
        return None;
    }
    let f = word_run(s, dt + 1);
    if f == dt + 1 {
        return None;
    }
    Some(Spans { id: (a, b), username: (c, d), email: (e, f) })
}

} // verus!
