//! Classification of an input line: a meta-command (a leading `.`), a
//! statement (`insert` or `select`, recognised by prefix), or neither.

use vstd::prelude::*;
use crate::fixed::chars_of;

verus! {

/// Whether `s` begins with `p`.
pub open spec fn starts_with(s: Seq<char>, p: Seq<char>) -> bool {
    p.len() <= s.len() && s.subrange(0, p.len() as int) == p
}

/// The one recognised meta-command.
pub open spec fn exit_text() -> Seq<char> {
    seq!['.', 'e', 'x', 'i', 't']
}

/// The keyword of an insert statement.
pub open spec fn insert_text() -> Seq<char> {
    seq!['i', 'n', 's', 'e', 'r', 't']
}

/// The keyword of a select statement.
pub open spec fn select_text() -> Seq<char> {
    seq!['s', 'e', 'l', 'e', 'c', 't']
}

/// Whether a line is a candidate meta-command.
pub open spec fn is_meta(s: Seq<char>) -> bool {
    s.len() > 0 && s[0] == '.'
}

/// Whether `s[at..]` begins with `p`.
pub fn has_prefix_at(s: &Vec<char>, at: usize, p: &Vec<char>) -> (r: bool)
    requires
        at <= s@.len(),
    ensures
        r == (at + p@.len() <= s@.len() && s@.subrange(at as int, at + p@.len()) == p@),
{
    if s.len() - at < p.len() {
        return false;
    }
    let mut i: usize = 0;
    while i < p.len()
        invariant
            at + p@.len() <= s@.len() <= usize::MAX,
            i <= p@.len(),
            forall|k: int| 0 <= k < i ==> s@[at + k] == p@[k],
        decreases p@.len() - i,
    {
        if s[at + i] != p[i] {
            proof {
                assert(s@.subrange(at as int, at + p@.len())[i as int] != p@[i as int]);
            }
            return false;
        }
        i = i + 1;
    }
    assert(s@.subrange(at as int, at + p@.len()) =~= p@);
    true
}

/// A meta-command: an instruction to the interpreter itself.
#[derive(Clone, Copy, Debug, PartialEq, Eq, Structural)]
pub enum MetaCommand {
    Exit,
}

/// A `.` line that names no meta-command.
#[derive(Clone, Copy, Debug, PartialEq, Eq, Structural)]
pub enum MetaCommandParseError {
    UnrecognizedCommand,
}

impl MetaCommand {
    /// Whether the line starts with `.`.
    pub fn is_meta_command(input_str: &str) -> (r: bool)
        ensures
            r == is_meta(input_str@),
    {
        input_str.unicode_len() > 0 && input_str.get_char(0) == '.'
    }

    /// The meta-command the line names: exactly `.exit`, case-sensitive.
    pub fn from_str(input_str: &str) -> (r: Result<MetaCommand, MetaCommandParseError>)
        ensures
            r == (if input_str@ == exit_text() {
                Ok::<_, MetaCommandParseError>(MetaCommand::Exit)
            } else {
                Err::<MetaCommand, _>(MetaCommandParseError::UnrecognizedCommand)
            }),
    {
        let s = chars_of(input_str);
        let exit = vec!['.', 'e', 'x', 'i', 't'];
        assert(exit@ =~= exit_text());
        if s.len() == exit.len() && has_prefix_at(&s, 0, &exit) {
            assert(s@ =~= s@.subrange(0, 5));
            Ok(MetaCommand::Exit)
        } else {
            proof {
                if s@ == exit_text() {
                    assert(s@.subrange(0, 5) =~= s@);
                }
            }
            Err(MetaCommandParseError::UnrecognizedCommand)
        }
    }
}

/// A data statement.
#[derive(Clone, Copy, Debug, PartialEq, Eq, Structural)]
pub enum Statement {
    Insert,
    Select,
}

/// A line that begins with no statement keyword.
#[derive(Clone, Copy, Debug, PartialEq, Eq, Structural)]
pub enum StatementParseError {
    UnrecognizedStatement,
}

/// The statement a line begins with; `insert` is tried before `select`.
pub open spec fn statement_of(s: Seq<char>) -> Result<Statement, StatementParseError> {
    if starts_with(s, insert_text()) {
        Ok(Statement::Insert)
    } else if starts_with(s, select_text()) {
        Ok(Statement::Select)
    } else {
        Err(StatementParseError::UnrecognizedStatement)
    }
}

impl Statement {
    /// The statement whose keyword the line begins with; what follows the
    /// keyword is not looked at.
    pub fn from_str(input_str: &str) -> (r: Result<Statement, StatementParseError>)
        ensures
            r == statement_of(input_str@),
    {
        let s = chars_of(input_str);
        let insert = vec!['i', 'n', 's', 'e', 'r', 't'];
        let select = vec!['s', 'e', 'l', 'e', 'c', 't'];
        assert(insert@ =~= insert_text());
        assert(select@ =~= select_text());
        if has_prefix_at(&s, 0, &insert) {
            Ok(Statement::Insert)
        } else if has_prefix_at(&s, 0, &select) {
            Ok(Statement::Select)
        } else {
            Err(StatementParseError::UnrecognizedStatement)
        }
    }
}

} // verus!
