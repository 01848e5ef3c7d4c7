use wordlist_parser::engine::{parse, parse_report};
use wordlist_parser::records::Entry;

fn attr(e: &Entry, key: &str) -> Option<String> {
    e.attributes.get(&key.to_string()).map(|v| v.clone())
}

#[test]
fn scenario_inline_then_indented() {
    let out = parse("alpha;7\n    note: hi\n");
    assert_eq!(out.len(), 1);
    assert_eq!(out[0].name, "alpha");
    assert_eq!(out[0].attributes.len(), 2);
    assert_eq!(attr(&out[0], "score").unwrap(), "7");
    assert_eq!(attr(&out[0], "note").unwrap(), "hi");
}

#[test]
fn scenario_explicit_overrides_inline() {
    let out = parse("alpha;7\n    score: 9\n");
    assert_eq!(out.len(), 1);
    assert_eq!(out[0].name, "alpha");
    assert_eq!(out[0].attributes.len(), 1);
    assert_eq!(attr(&out[0], "score").unwrap(), "9");
}

#[test]
fn scenario_two_entries_in_source_order() {
    let out = parse("beta\ngamma\n    x: 1\n");
    assert_eq!(out.len(), 2);
    assert_eq!(out[0].name, "beta");
    assert_eq!(out[0].attributes.len(), 0);
    assert_eq!(out[1].name, "gamma");
    assert_eq!(out[1].attributes.len(), 1);
    assert_eq!(attr(&out[1], "x").unwrap(), "1");
}

#[test]
fn scenario_key_line_with_no_value() {
    // The line break after `bad:` matches no rule of the key/value separator
    // state, so it is consumed silently; the stream then ends and the pending
    // attribute, never committed, is discarded. The entry itself is kept.
    let out = parse("delta\n    bad:\n");
    assert_eq!(out.len(), 1);
    assert_eq!(out[0].name, "delta");
    assert_eq!(out[0].attributes.len(), 0);
}

#[test]
fn scenario_top_level_name_with_separator() {
    // A letter in column zero opens an entry, so the `:` after `eps` is a
    // field separator introducing an inline attribute, not an unexpected
    // separator: the Error path fires only for a `:` where a name or key is
    // expected. The blank after the separator is consumed silently and the
    // value starts at `5`.
    let out = parse("eps: 5\n");
    assert_eq!(out.len(), 1);
    assert_eq!(out[0].name, "eps");
    assert_eq!(out[0].attributes.len(), 1);
    assert_eq!(attr(&out[0], "score").unwrap(), "5");
}

#[test]
fn end_of_stream_commits_open_entry() {
    let out = parse("omega");
    assert_eq!(out.len(), 1);
    assert_eq!(out[0].name, "omega");
    assert_eq!(out[0].attributes.len(), 0);
}

#[test]
fn end_of_stream_discards_pending_inline_value() {
    // The stream ends while the inline value is still under construction:
    // the pending attribute is dropped, the entry is still committed.
    let out = parse("alpha;7");
    assert_eq!(out.len(), 1);
    assert_eq!(out[0].name, "alpha");
    assert_eq!(out[0].attributes.len(), 0);
}

#[test]
fn end_of_stream_discards_pending_value() {
    let out = parse("alpha\n    k: part");
    assert_eq!(out.len(), 1);
    assert_eq!(out[0].attributes.len(), 0);
}

#[test]
fn separator_at_line_start_absorbs_rest() {
    // UnexpectedSeparator: `:` where an entry name is expected. Everything
    // after it is silently dropped, so not even `alpha` appears.
    let out = parse(":\nalpha\n");
    assert_eq!(out.len(), 0);
}

#[test]
fn separator_after_indent_absorbs_rest() {
    let out = parse("  : x\nbeta\n");
    assert_eq!(out.len(), 0);
}

#[test]
fn comment_marker_in_key_absorbs_rest() {
    // CommentInKey: the open entry is still force-committed at end of
    // stream, but nothing after the error is added — not even `beta`.
    let out = parse("alpha\n    k#oops\nbeta\n    y: 2\n");
    assert_eq!(out.len(), 1);
    assert_eq!(out[0].name, "alpha");
    assert_eq!(out[0].attributes.len(), 0);
}

#[test]
fn dangling_key_absorbs_rest() {
    // DanglingKeyLine: a key line ends at a line break without a `:`.
    let out = parse("alpha\n    bad\nbeta\n");
    assert_eq!(out.len(), 1);
    assert_eq!(out[0].name, "alpha");
    assert_eq!(out[0].attributes.len(), 0);
}

#[test]
fn last_write_wins_for_indented_declarations() {
    let out = parse("a\n    k: 1\n    k: 2\n");
    assert_eq!(out.len(), 1);
    assert_eq!(out[0].attributes.len(), 1);
    assert_eq!(attr(&out[0], "k").unwrap(), "2");
}

#[test]
fn values_keep_interior_and_trailing_whitespace() {
    let out = parse("a\n    k: v  w  \n");
    assert_eq!(attr(&out[0], "k").unwrap(), "v  w  ");
}

#[test]
fn value_ends_before_comment_marker() {
    // The blank between the value and the comment marker is part of the
    // value; the marker itself is not.
    let out = parse("a\n    k: v #c\n");
    assert_eq!(attr(&out[0], "k").unwrap(), "v ");
}

#[test]
fn one_entry_per_letter_initial_line() {
    let out = parse("one\ntwo\nthree\n");
    assert_eq!(out.len(), 3);
    assert_eq!(out[0].name, "one");
    assert_eq!(out[1].name, "two");
    assert_eq!(out[2].name, "three");
}

#[test]
fn duplicate_names_are_both_kept() {
    let out = parse("twin\ntwin\n");
    assert_eq!(out.len(), 2);
    assert_eq!(out[0].name, "twin");
    assert_eq!(out[1].name, "twin");
}

#[test]
fn comments_and_blank_lines_yield_nothing() {
    let out = parse("\n# a comment\n   \n");
    assert_eq!(out.len(), 0);
}

#[test]
fn comment_after_entry_name() {
    let out = parse("word#rest of line\nnext\n");
    assert_eq!(out.len(), 2);
    assert_eq!(out[0].name, "word");
    assert_eq!(out[1].name, "next");
}

#[test]
fn inline_value_committed_at_blank() {
    let out = parse("ratczar;80     #  test\n    dog: true\n");
    assert_eq!(out.len(), 1);
    assert_eq!(out[0].name, "ratczar");
    assert_eq!(out[0].attributes.len(), 2);
    assert_eq!(attr(&out[0], "score").unwrap(), "80");
    assert_eq!(attr(&out[0], "dog").unwrap(), "true");
}

#[test]
fn inline_separator_colon_form() {
    let out = parse("a:5\n");
    assert_eq!(attr(&out[0], "score").unwrap(), "5");
}

#[test]
fn keys_may_hold_embedded_blanks() {
    let out = parse("a\n    big dog: yes\n");
    assert_eq!(out[0].attributes.len(), 1);
    assert_eq!(attr(&out[0], "big dog").unwrap(), "yes");
}

#[test]
fn attribute_line_with_no_open_entry_is_discarded() {
    let out = parse("    k: 1\n");
    assert_eq!(out.len(), 0);
}

#[test]
fn report_names_position_of_unexpected_separator() {
    let (out, fault) = parse_report(":\nalpha\n");
    assert_eq!(out.len(), 0);
    assert_eq!(fault, Some(0));
}

#[test]
fn report_names_position_of_comment_in_key() {
    let (out, fault) = parse_report("alpha\n    k#x\n");
    assert_eq!(out.len(), 1);
    assert_eq!(fault, Some(11));
}

#[test]
fn report_names_position_of_dangling_key() {
    let (out, fault) = parse_report("a\n  b\nc");
    assert_eq!(out.len(), 1);
    assert_eq!(out[0].name, "a");
    assert_eq!(fault, Some(5));
}

#[test]
fn report_is_clean_on_well_formed_input() {
    let (out, fault) = parse_report("alpha;7\n    note: hi\n");
    assert_eq!(out.len(), 1);
    assert_eq!(fault, None);
}

#[test]
fn empty_input_yields_nothing() {
    let out = parse("");
    assert_eq!(out.len(), 0);
}

#[test]
fn value_may_begin_at_line_break_after_trailing_blank() {
    // After `k: ` the scanner is skipping leading blanks of the value, and
    // any non-blank character — the line break included — begins the value.
    // The next line's `b` then extends it, so the would-be entry `b` is
    // swallowed into the value.
    let out = parse("a\n    k: \nb\n");
    assert_eq!(out.len(), 1);
    assert_eq!(attr(&out[0], "k").unwrap(), "\nb");
}

#[test]
fn value_may_begin_on_a_later_line_without_trailing_blank() {
    // A line break directly after the `:` matches no rule, so the scanner
    // still awaits a value; the next line's `b` begins it.
    let out = parse("a\n    k:\nb\n");
    assert_eq!(out.len(), 1);
    assert_eq!(attr(&out[0], "k").unwrap(), "b");
}

#[test]
fn absent_key_is_not_found() {
    let out = parse("a\n    k: 1\n");
    assert!(attr(&out[0], "missing").is_none());
}
