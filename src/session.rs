//! One step of the command loop: what a line does to the table, and what
//! is reported back.

use vstd::prelude::*;
use crate::command::{
    MetaCommand, Statement, MetaCommandParseError, is_meta, exit_text, statement_of,
};
use crate::row::{ParseError, parse_insert, decode};
use crate::table::{Table, RowView};
use crate::command::insert_text;
use crate::fixed::fixed_width;
use crate::grammar::{
    ascii_digit, is_digit, is_word, matches_at, is_first_match, insert_keyword, lemma_digit_run_stops,
    lemma_word_run_stops,
};
use crate::row::{decimal_value, decode_at, is_ascii_numeral};

verus! {

/// What a line led to.
#[derive(Clone, Copy, Debug, PartialEq, Eq, Structural)]
pub enum Outcome {
    /// `.exit`: the loop ends.
    Exit,
    /// A `.` line that names no meta-command.
    UnrecognizedMeta,
    /// A line that is neither a meta-command nor a statement.
    UnrecognizedInput,
    /// An insert statement whose row was appended.
    Inserted,
    /// An insert statement that did not decode; nothing was appended.
    InsertFailed(ParseError),
    /// A select statement: the table is to be shown.
    Selected,
}

/// The outcome of a (trimmed) line.
pub open spec fn outcome_of(s: Seq<char>) -> Outcome {
    if is_meta(s) {
        if s == exit_text() {
            Outcome::Exit
        } else {
            Outcome::UnrecognizedMeta
        }
    } else {
        match statement_of(s) {
            Ok(Statement::Insert) => match decode(s) {
                Ok(_) => Outcome::Inserted,
                Err(e) => Outcome::InsertFailed(e),
            },
            Ok(Statement::Select) => Outcome::Selected,
            Err(_) => Outcome::UnrecognizedInput,
        }
    }
}

/// The rows after a line: one more for a successful insert, the same
/// otherwise.
pub open spec fn rows_after(rows: Seq<RowView>, s: Seq<char>) -> Seq<RowView> {
    if outcome_of(s) == Outcome::Inserted {
        rows.push(decode(s)->Ok_0)
    } else {
        rows
    }
}

/// Carries out one trimmed line against the table.
pub fn execute(table: &mut Table, line: &str) -> (r: Outcome)
    ensures
        r == outcome_of(line@),
        final(table)@ == rows_after(old(table)@, line@),
        r != Outcome::Inserted ==> final(table)@ == old(table)@,
        is_meta(line@) && line@ != exit_text() ==> r == Outcome::UnrecognizedMeta,
        line@ == exit_text() ==> r == Outcome::Exit,
{
    if MetaCommand::is_meta_command(line) {
        match MetaCommand::from_str(line) {
            Ok(MetaCommand::Exit) => Outcome::Exit,
            Err(MetaCommandParseError::UnrecognizedCommand) => Outcome::UnrecognizedMeta,
        }
    } else {
        match Statement::from_str(line) {
            Ok(Statement::Insert) => match parse_insert(line) {
                Ok(row) => {
                    table.insert(row);
                    Outcome::Inserted
                },
                Err(e) => Outcome::InsertFailed(e),
            },
            Ok(Statement::Select) => Outcome::Selected,
            Err(_) => Outcome::UnrecognizedInput,
        }
    }
}

/// The name under which an error is reported.
pub open spec fn error_name(e: ParseError) -> Seq<char> {
    match e {
        ParseError::NoRegexMatch => "NoRegexMatch"@,
        ParseError::IdOutOfRange => "IdOutOfRange"@,
        ParseError::InvalidId => "InvalidId"@,
    }
}

impl ParseError {
    /// The name under which the error is reported.
    pub fn name(&self) -> (r: &'static str)
        ensures
            r@ == error_name(*self),
    {
        match self {
            ParseError::NoRegexMatch => "NoRegexMatch",
            ParseError::IdOutOfRange => "IdOutOfRange",
            ParseError::InvalidId => "InvalidId",
        }
    }
}

/// The message reported for an outcome of `line`, if any.
pub open spec fn message_of(o: Outcome, line: Seq<char>) -> Option<Seq<char>> {
    match o {
        Outcome::UnrecognizedMeta => Some("unrecognized meta command: "@ + line),
        Outcome::UnrecognizedInput => Some("Unrecognized input: "@ + line),
        Outcome::InsertFailed(e) => Some(
            "Encountered error when parsing insert: "@ + error_name(e),
        ),
        _ => None,
    }
}

impl Outcome {
    /// The message to show for this outcome of `line`; none after an exit,
    /// a successful insert, or a select (which shows the table instead).
    pub fn message(&self, line: &str) -> (r: Option<String>)
        ensures
            r matches Some(m) ==> message_of(*self, line@) == Some(m@),
            r is None ==> message_of(*self, line@) is None,
    {
        match self {
            Outcome::UnrecognizedMeta => {
                let mut m = String::from_str("unrecognized meta command: ");
                m.append(line);
                Some(m)
            },
            Outcome::UnrecognizedInput => {
                let mut m = String::from_str("Unrecognized input: ");
                m.append(line);
                Some(m)
            },
            Outcome::InsertFailed(e) => {
                let mut m = String::from_str("Encountered error when parsing insert: ");
                m.append(e.name());
                Some(m)
            },
            _ => None,
        }
    }
}

/// Whether `s` is one or more word characters.
pub open spec fn is_word_token(s: Seq<char>) -> bool {
    s.len() > 0 && forall|k: int| 0 <= k < s.len() ==> is_word(#[trigger] s[k])
}

/// Whether `s` is one or more of `[0-9]`.
pub open spec fn is_numeral_token(s: Seq<char>) -> bool {
    s.len() > 0 && is_ascii_numeral(s)
}

/// The email `<local>@<domain>.<tld>`.
pub open spec fn email_text(local: Seq<char>, domain: Seq<char>, tld: Seq<char>) -> Seq<char> {
    local + seq!['@'] + domain + seq!['.'] + tld
}

/// The line `insert <id> <username> <email>`.
pub open spec fn insert_line(id: Seq<char>, username: Seq<char>, email: Seq<char>) -> Seq<char> {
    insert_text() + seq![' '] + id + seq![' '] + username + seq![' '] + email
}

/// A line `insert <id> <username> <local>@<domain>.<tld>` with an id in
/// 0..=255 and word-character tokens is inserted: the table gains exactly
/// one row, at the end, whose id is the id's value and whose username and
/// email are the fixed-width forms of the tokens.
#[verifier::rlimit(50)]
pub proof fn lemma_insert_appends_row(
    rows: Seq<RowView>,
    id: Seq<char>,
    username: Seq<char>,
    local: Seq<char>,
    domain: Seq<char>,
    tld: Seq<char>,
)
    requires
        is_numeral_token(id),
        decimal_value(id) <= 255,
        is_word_token(username),
        is_word_token(local),
        is_word_token(domain),
        is_word_token(tld),
    ensures
        outcome_of(insert_line(id, username, email_text(local, domain, tld))) == Outcome::Inserted,
        rows_after(rows, insert_line(id, username, email_text(local, domain, tld))) == rows.push(
            (
                decimal_value(id) as u8,
                fixed_width(username),
                fixed_width(email_text(local, domain, tld)),
            ),
        ),
{
    let e = email_text(local, domain, tld);
    let s = insert_line(id, username, e);
    let b: int = 7 + id.len() as int;
    let d: int = b + 1 + username.len() as int;
    let at: int = d + 1 + local.len() as int;
    let dt: int = at + 1 + domain.len() as int;
    let f: int = dt + 1 + tld.len() as int;
    assert(s.len() == f);
    assert forall|k: int| 7 <= k < b implies is_digit(#[trigger] s[k]) by {
        assert(s[k] == id[k - 7]);
        assert(ascii_digit(id[k - 7]));
    }
    assert forall|k: int| b + 1 <= k < d implies is_word(#[trigger] s[k]) by {
        assert(s[k] == username[k - b - 1]);
    }
    assert forall|k: int| d + 1 <= k < at implies is_word(#[trigger] s[k]) by {
        assert(s[k] == local[k - d - 1]);
    }
    assert forall|k: int| at + 1 <= k < dt implies is_word(#[trigger] s[k]) by {
        assert(s[k] == domain[k - at - 1]);
    }
    assert forall|k: int| dt + 1 <= k < f implies is_word(#[trigger] s[k]) by {
        assert(s[k] == tld[k - dt - 1]);
    }
    assert(s[b] == ' ');
    assert(s[d] == ' ');
    assert(s[at] == '@');
    assert(s[dt] == '.');
    lemma_digit_run_stops(s, 7, b);
    lemma_word_run_stops(s, b + 1, d);
    lemma_word_run_stops(s, d + 1, at);
    lemma_word_run_stops(s, at + 1, dt);
    lemma_word_run_stops(s, dt + 1, f);
    assert(s.subrange(0, 7) =~= insert_keyword());
    assert(s.subrange(0, 6) =~= insert_text());
    assert(matches_at(s, 0));
    assert(is_first_match(s, 0));
    let c = choose|p: int| is_first_match(s, p);
    assert(c == 0);
    assert(s.subrange(7, b) =~= id);
    assert(s.subrange(b + 1, d) =~= username);
    assert(s.subrange(d + 1, f) =~= e);
    assert(decode(s) == decode_at(s, 0));
}

} // verus!
