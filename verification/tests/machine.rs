use wordlist_parser::chars::{guard_eval, Guard};
use wordlist_parser::engine::scan_char;
use wordlist_parser::machine::{transitions, State};
use wordlist_parser::parser::Parser;
use wordlist_parser::records::AttrMap;

#[test]
fn classifier_letter_and_blank() {
    assert!(guard_eval(Guard::Letter, 'a'));
    assert!(guard_eval(Guard::Letter, 'Z'));
    assert!(!guard_eval(Guard::Letter, '1'));
    assert!(guard_eval(Guard::Blank, ' '));
    assert!(guard_eval(Guard::Blank, '\t'));
    assert!(!guard_eval(Guard::Blank, '\n'));
    assert!(guard_eval(Guard::FieldSeparator, ';'));
    assert!(guard_eval(Guard::FieldSeparator, ':'));
    assert!(!guard_eval(Guard::KeyValueSeparator, ';'));
    assert!(guard_eval(Guard::IdentChar, '\t'));
    assert!(!guard_eval(Guard::IdentChar, ';'));
    assert!(guard_eval(Guard::KeyChar, ' '));
    assert!(!guard_eval(Guard::KeyChar, ':'));
    assert!(guard_eval(Guard::ValueChar, ' '));
    assert!(!guard_eval(Guard::ValueChar, '#'));
}

#[test]
fn letter_at_line_start_opens_an_entry() {
    let table = transitions();
    let mut p = Parser::new();
    assert_eq!(p.state, State::LineStart);
    scan_char(&mut p, &table, 'a');
    assert_eq!(p.state, State::EntryName);
    assert_eq!(p.current_word.as_ref().unwrap().name, "a");
}

#[test]
fn unmatched_character_has_no_effect() {
    let table = transitions();
    let mut p = Parser::new();
    scan_char(&mut p, &table, '\n');
    assert_eq!(p.state, State::LineStart);
    assert!(p.current_word.is_none());
    assert_eq!(p.parsed_words.len(), 0);
}

#[test]
fn separator_at_line_start_enters_error_state() {
    let table = transitions();
    let mut p = Parser::new();
    scan_char(&mut p, &table, ':');
    assert_eq!(p.state, State::Error);
    scan_char(&mut p, &table, 'a');
    assert_eq!(p.state, State::Error);
    assert!(p.current_word.is_none());
}

#[test]
fn attr_map_insert_is_last_write_wins() {
    let mut m = AttrMap::new();
    m.insert("k".to_string(), "1".to_string());
    m.insert("k".to_string(), "2".to_string());
    m.insert("other".to_string(), "3".to_string());
    assert_eq!(m.len(), 2);
    assert_eq!(m.get(&"k".to_string()).unwrap(), "2");
    assert_eq!(m.get(&"other".to_string()).unwrap(), "3");
    assert!(m.get(&"gone".to_string()).is_none());
}
