use tinydb::command::{MetaCommand, MetaCommandParseError, Statement, StatementParseError};
use tinydb::fixed::to_fixlen_array;
use tinydb::row::{parse_insert, ParseError};
use tinydb::session::{execute, Outcome};
use tinydb::table::Table;

fn field(s: &str) -> [char; 32] {
    let mut r = ['\0'; 32];
    for (i, c) in s.chars().take(32).enumerate() {
        r[i] = c;
    }
    r
}

#[test]
fn fixed_width_keeps_exact_capacity() {
    let s = "abcdefghijklmnopqrstuvwxyz012345";
    assert_eq!(s.chars().count(), 32);
    let r = to_fixlen_array(s);
    assert_eq!(r.iter().collect::<String>(), s);
}

#[test]
fn fixed_width_truncates_long_text() {
    let s = "abcdefghijklmnopqrstuvwxyz0123456789ABCD";
    assert_eq!(s.chars().count(), 40);
    let r = to_fixlen_array(s);
    assert_eq!(r.iter().collect::<String>(), "abcdefghijklmnopqrstuvwxyz012345");
}

#[test]
fn fixed_width_pads_short_text() {
    let r = to_fixlen_array("hello");
    assert_eq!(&r[..5], &['h', 'e', 'l', 'l', 'o']);
    assert!(r[5..].iter().all(|&c| c == '\0'));
    assert_eq!(r[5..].len(), 27);
}

#[test]
fn fixed_width_of_empty_and_non_ascii() {
    assert_eq!(to_fixlen_array(""), ['\0'; 32]);
    let r = to_fixlen_array("héé");
    assert_eq!(&r[..3], &['h', 'é', 'é']);
    assert_eq!(r[3], '\0');
}

#[test]
fn insert_then_select_shows_one_row() {
    let mut table = Table::new();
    assert_eq!(execute(&mut table, "insert 1 cstack foo@bar.com"), Outcome::Inserted);
    assert_eq!(execute(&mut table, "select"), Outcome::Selected);
    let rows = table.select_all();
    assert_eq!(rows.len(), 1);
    assert_eq!(rows[0].id, 1);
    let mut user = vec!['c', 's', 't', 'a', 'c', 'k'];
    user.extend(std::iter::repeat('\0').take(26));
    assert_eq!(rows[0].username.to_vec(), user);
    let mut email: Vec<char> = "foo@bar.com".chars().collect();
    email.extend(std::iter::repeat('\0').take(21));
    assert_eq!(rows[0].email.to_vec(), email);
}

#[test]
fn insert_with_non_numeric_id_fails() {
    let mut table = Table::new();
    let o = execute(&mut table, "insert abc x y");
    assert_eq!(o, Outcome::InsertFailed(ParseError::NoRegexMatch));
    assert_eq!(table.len(), 0);
    assert_eq!(
        o.message("insert abc x y"),
        Some("Encountered error when parsing insert: NoRegexMatch".to_string())
    );
}

#[test]
fn exit_ends_whatever_the_table_holds() {
    let mut table = Table::new();
    assert_eq!(execute(&mut table, ".exit"), Outcome::Exit);
    execute(&mut table, "insert 7 bob bob@example.org");
    assert_eq!(execute(&mut table, ".exit"), Outcome::Exit);
    assert_eq!(table.len(), 1);
    assert_eq!(Outcome::Exit.message(".exit"), None);
}

#[test]
fn unrecognized_input_is_reported() {
    let mut table = Table::new();
    let o = execute(&mut table, "banana");
    assert_eq!(o, Outcome::UnrecognizedInput);
    assert_eq!(o.message("banana"), Some("Unrecognized input: banana".to_string()));
    assert_eq!(table.len(), 0);
}

#[test]
fn unknown_meta_commands_leave_table_alone() {
    let mut table = Table::new();
    execute(&mut table, "insert 2 amy amy@x.io");
    for line in [".", ".EXIT", ".exit now", ".tables", ".exi"] {
        let o = execute(&mut table, line);
        assert_eq!(o, Outcome::UnrecognizedMeta);
        assert_eq!(o.message(line), Some(format!("unrecognized meta command: {}", line)));
        assert_eq!(table.len(), 1);
    }
}

#[test]
fn select_does_not_change_table() {
    let mut table = Table::new();
    execute(&mut table, "insert 3 a a@b.c");
    execute(&mut table, "insert 4 b b@c.d");
    let before: Vec<u8> = table.select_all().iter().map(|r| r.id).collect();
    assert_eq!(execute(&mut table, "select"), Outcome::Selected);
    assert_eq!(execute(&mut table, "select everything"), Outcome::Selected);
    let after: Vec<u8> = table.select_all().iter().map(|r| r.id).collect();
    assert_eq!(before, vec![3, 4]);
    assert_eq!(before, after);
    assert_eq!(Outcome::Selected.message("select"), None);
}

#[test]
fn rows_keep_insertion_order_and_duplicate_ids() {
    let mut table = Table::new();
    execute(&mut table, "insert 9 z z@z.z");
    execute(&mut table, "insert 9 y y@y.y");
    execute(&mut table, "insert 0 x x@x.x");
    let rows = table.select_all();
    let ids: Vec<u8> = rows.iter().map(|r| r.id).collect();
    assert_eq!(ids, vec![9, 9, 0]);
    assert_eq!(rows[1].username, field("y"));
}

#[test]
fn id_bounds() {
    assert_eq!(parse_insert("insert 255 a a@b.c").unwrap().id, 255);
    assert_eq!(parse_insert("insert 0 a a@b.c").unwrap().id, 0);
    assert_eq!(parse_insert("insert 007 a a@b.c").unwrap().id, 7);
    assert_eq!(parse_insert("insert 256 a a@b.c").unwrap_err(), ParseError::IdOutOfRange);
    assert_eq!(
        parse_insert("insert 99999999999999999999 a a@b.c").unwrap_err(),
        ParseError::IdOutOfRange
    );
    let mut table = Table::new();
    let o = execute(&mut table, "insert 300 a a@b.c");
    assert_eq!(o, Outcome::InsertFailed(ParseError::IdOutOfRange));
    assert_eq!(table.len(), 0);
    assert_eq!(
        o.message("insert 300 a a@b.c"),
        Some("Encountered error when parsing insert: IdOutOfRange".to_string())
    );
}

#[test]
fn leftmost_match_anywhere_in_line() {
    let r = parse_insert("please insert 5 bob b@c.d and more").unwrap();
    assert_eq!(r.id, 5);
    assert_eq!(r.username, field("bob"));
    assert_eq!(r.email, field("b@c.d"));
    let r = parse_insert("insert 1 a a@b.c insert 2 x x@y.z").unwrap();
    assert_eq!(r.id, 1);
    let r = parse_insert("insert x insert 2 x x@y.z").unwrap();
    assert_eq!(r.id, 2);
    assert_eq!(r.email, field("x@y.z"));
}

#[test]
fn email_takes_longest_runs() {
    let r = parse_insert("insert 1 user_1 first.last@mail.example.com").unwrap_err();
    assert_eq!(r, ParseError::NoRegexMatch);
    let r = parse_insert("insert 1 user_1 first@mail.example.com").unwrap();
    assert_eq!(r.username, field("user_1"));
    assert_eq!(r.email, field("first@mail.example"));
}

#[test]
fn grammar_mismatches() {
    for line in [
        "insert",
        "insert 1",
        "insert 1 bob",
        "insert 1 bob bob",
        "insert 1 bob bob@",
        "insert 1 bob bob@x",
        "insert 1 bob bob@x.",
        "insert  1 bob b@x.y",
        "insert -1 bob b@x.y",
        "insert 1 bob-smith b@x.y",
        "INSERT 1 bob b@x.y",
    ] {
        assert_eq!(parse_insert(line).unwrap_err(), ParseError::NoRegexMatch, "{}", line);
    }
}

#[test]
fn unicode_word_characters() {
    let r = parse_insert("insert 3 héllo ü@straße.de").unwrap();
    assert_eq!(r.username, field("héllo"));
    assert_eq!(r.email, field("ü@straße.de"));
    assert_eq!(parse_insert("insert 3 a€b x@y.z").unwrap_err(), ParseError::NoRegexMatch);
}

#[test]
fn long_fields_are_truncated() {
    let name = "n".repeat(40);
    let line = format!("insert 12 {} {}@d.com", name, "m".repeat(35));
    let r = parse_insert(&line).unwrap();
    assert_eq!(r.username, ['n'; 32]);
    assert_eq!(r.email, ['m'; 32]);
}

#[test]
fn statement_keywords_by_prefix() {
    assert_eq!(Statement::from_str("insert"), Ok(Statement::Insert));
    assert_eq!(Statement::from_str("insertion"), Ok(Statement::Insert));
    assert_eq!(Statement::from_str("select"), Ok(Statement::Select));
    assert_eq!(Statement::from_str("selectinsert"), Ok(Statement::Select));
    assert_eq!(Statement::from_str("sel"), Err(StatementParseError::UnrecognizedStatement));
    assert_eq!(Statement::from_str(" select"), Err(StatementParseError::UnrecognizedStatement));
    assert_eq!(Statement::from_str(""), Err(StatementParseError::UnrecognizedStatement));
    let mut table = Table::new();
    let o = execute(&mut table, "insertion");
    assert_eq!(o, Outcome::InsertFailed(ParseError::NoRegexMatch));
    assert_eq!(execute(&mut table, ""), Outcome::UnrecognizedInput);
}

#[test]
fn meta_commands() {
    assert!(MetaCommand::is_meta_command(".exit"));
    assert!(MetaCommand::is_meta_command("."));
    assert!(!MetaCommand::is_meta_command("exit"));
    assert!(!MetaCommand::is_meta_command(""));
    assert_eq!(MetaCommand::from_str(".exit"), Ok(MetaCommand::Exit));
    assert_eq!(
        MetaCommand::from_str(".Exit"),
        Err(MetaCommandParseError::UnrecognizedCommand)
    );
    assert_eq!(
        MetaCommand::from_str(".exit "),
        Err(MetaCommandParseError::UnrecognizedCommand)
    );
}

#[test]
fn non_ascii_decimal_id_is_an_invalid_id() {
    assert_eq!(parse_insert("insert ٣ a a@b.c").unwrap_err(), ParseError::InvalidId);
    assert_eq!(parse_insert("insert 1٣ a a@b.c").unwrap_err(), ParseError::InvalidId);
    assert_eq!(parse_insert("insert ９ a a@b.c").unwrap_err(), ParseError::InvalidId);
    let mut table = Table::new();
    let line = "insert ٣ a a@b.c insert 1 b b@c.d";
    let o = execute(&mut table, line);
    assert_eq!(o, Outcome::InsertFailed(ParseError::InvalidId));
    assert_eq!(table.len(), 0);
    assert_eq!(
        o.message(line),
        Some("Encountered error when parsing insert: InvalidId".to_string())
    );
}

#[test]
fn numeric_but_not_decimal_is_no_match() {
    assert_eq!(parse_insert("insert ½ a a@b.c").unwrap_err(), ParseError::NoRegexMatch);
    assert_eq!(parse_insert("insert Ⅳ a a@b.c").unwrap_err(), ParseError::NoRegexMatch);
    let r = parse_insert("insert ½ a a@b.c insert 4 d d@e.f").unwrap();
    assert_eq!(r.id, 4);
}
