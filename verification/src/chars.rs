//! Character classification: the predicates over a single character that the
//! transition table uses as guard conditions, and the named guard kinds that
//! stand in the table's rules.

use vstd::prelude::*;

verus! {

/// A letter, `a` through `z` or `A` through `Z`: the only characters that may
/// begin an entry name or an attribute key.
pub open spec fn is_letter_char(c: char) -> bool {
    ('a' <= c && c <= 'z') || ('A' <= c && c <= 'Z')
}

/// Horizontal whitespace: a space or a tab.
pub open spec fn is_blank_char(c: char) -> bool {
    c == ' ' || c == '\t'
}

/// The line break character.
pub open spec fn is_line_break_char(c: char) -> bool {
    c == '\n'
}

/// The comment marker, which opens a comment running to the end of the line.
pub open spec fn is_comment_marker_char(c: char) -> bool {
    c == '#'
}

/// A field separator after an entry name: `;` or `:` introduces an inline
/// attribute.
pub open spec fn is_field_separator_char(c: char) -> bool {
    c == ';' || c == ':'
}

/// The key/value separator `:` that ends an attribute key.
pub open spec fn is_key_value_separator_char(c: char) -> bool {
    c == ':'
}

/// A character that may continue an entry name: anything but a space, a field
/// separator, a comment marker, or a line break.
pub open spec fn is_ident_char(c: char) -> bool {
    !(c == ' ' || c == ';' || c == ':' || c == '#' || c == '\n')
}

/// A character that may continue an attribute key: anything but a comment
/// marker, a line break, or the key/value separator. Blanks are allowed, so
/// keys may contain embedded spaces.
pub open spec fn is_key_char(c: char) -> bool {
    !(c == '#' || c == '\n' || c == ':')
}

/// A character that may continue an attribute value: anything but a comment
/// marker or a line break. Blanks are allowed and preserved.
pub open spec fn is_value_char(c: char) -> bool {
    !(c == '#' || c == '\n')
}

/// A character that may begin an attribute value: anything but a blank, a
/// comment marker, or a line break.
pub open spec fn is_value_start_char(c: char) -> bool {
    !(c == ' ' || c == '\t' || c == '#' || c == '\n')
}

/// The guard kinds that appear in the transition table. Each names one of the
/// character classes above, or the complement of one.
#[derive(PartialEq, Eq, Copy, Clone, Debug, Structural)]
pub enum Guard {
    Letter,
    Blank,
    LineBreak,
    CommentMarker,
    FieldSeparator,
    KeyValueSeparator,
    NotLineBreak,
    IdentChar,
    KeyChar,
    ValueChar,
    ValueStartChar,
    NotBlank,
}

/// What each guard kind accepts.
pub open spec fn guard_accepts(g: Guard, c: char) -> bool {
    match g {
        Guard::Letter => is_letter_char(c),
        Guard::Blank => is_blank_char(c),
        Guard::LineBreak => is_line_break_char(c),
        Guard::CommentMarker => is_comment_marker_char(c),
        Guard::FieldSeparator => is_field_separator_char(c),
        Guard::KeyValueSeparator => is_key_value_separator_char(c),
        Guard::NotLineBreak => !is_line_break_char(c),
        Guard::IdentChar => is_ident_char(c),
        Guard::KeyChar => is_key_char(c),
        Guard::ValueChar => is_value_char(c),
        Guard::ValueStartChar => is_value_start_char(c),
        Guard::NotBlank => !is_blank_char(c),
    }
}

/// Decides whether a guard accepts a character.
pub fn guard_eval(g: Guard, c: char) -> (b: bool)
    ensures
        b == guard_accepts(g, c),
{
    match g {
        Guard::Letter => is_letter(c),
        Guard::Blank => is_blank(c),
        Guard::LineBreak => is_line_break(c),
        Guard::CommentMarker => is_comment_marker(c),
        Guard::FieldSeparator => is_field_separator(c),
        Guard::KeyValueSeparator => is_key_value_separator(c),
        Guard::NotLineBreak => !is_line_break(c),
        Guard::IdentChar => !(c == ' ' || c == ';' || c == ':' || c == '#' || c == '\n'),
        Guard::KeyChar => !(c == '#' || c == '\n' || c == ':'),
        Guard::ValueChar => !(c == '#' || c == '\n'),
        Guard::ValueStartChar => !(c == ' ' || c == '\t' || c == '#' || c == '\n'),
        Guard::NotBlank => !(c == ' ' || c == '\t'),
    }
}

/// Tests whether `c` is a letter.
pub fn is_letter(c: char) -> (b: bool)
    ensures
        b == is_letter_char(c),
{
    ('a' <= c && c <= 'z') || ('A' <= c && c <= 'Z')
}

/// Tests whether `c` is a space or a tab.
pub fn is_blank(c: char) -> (b: bool)
    ensures
        b == is_blank_char(c),
{
    c == ' ' || c == '\t'
}

/// Tests whether `c` is a line break.
pub fn is_line_break(c: char) -> (b: bool)
    ensures
        b == is_line_break_char(c),
{
    c == '\n'
}

/// Tests whether `c` is the comment marker.
pub fn is_comment_marker(c: char) -> (b: bool)
    ensures
        b == is_comment_marker_char(c),
{
    c == '#'
}

/// Tests whether `c` is a field separator.
pub fn is_field_separator(c: char) -> (b: bool)
    ensures
        b == is_field_separator_char(c),
{
    c == ';' || c == ':'
}

/// Tests whether `c` is the key/value separator.
pub fn is_key_value_separator(c: char) -> (b: bool)
    ensures
        b == is_key_value_separator_char(c),
{
    c == ':'
}

} // verus!
