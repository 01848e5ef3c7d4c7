//! The properties the scanner is answerable for, proved against the table:
//! a closed-form reading of the ordered table, the absorbing error states,
//! append-only output, preservation of whitespace in values, last-write-wins
//! attribute maps, and the forced commit at end of stream.

use vstd::prelude::*;

use crate::chars::{
    is_blank_char, is_comment_marker_char, is_field_separator_char, is_ident_char, is_key_char,
    is_key_value_separator_char, is_letter_char, is_line_break_char, is_value_char,
    is_value_start_char,
};
use crate::machine::{Action, State};
use crate::parser::{apply_action, init_model, spec_flush, ScanModel};
use crate::engine::{first_match_from, spec_parse, spec_scan_from, spec_step};
use crate::records::EntryModel;

verus! {

/// One resolved step: run the action, then move to the state.
pub open spec fn goto(m: ScanModel, st: State, a: Action, c: char) -> ScanModel {
    ScanModel { state: st, ..apply_action(m, a, c) }
}

/// The transition table read as a function, with the first-match order
/// already resolved: from each state, the cases appear in the order the
/// table's rules are scanned, and a character no case covers has no effect.
pub open spec fn step_fn(m: ScanModel, c: char) -> ScanModel {
    match m.state {
        State::Blank => if is_blank_char(c) {
            goto(m, State::Blank, Action::Noop, c)
        } else if is_comment_marker_char(c) {
            goto(m, State::Comment, Action::Noop, c)
        } else if is_line_break_char(c) {
            goto(m, State::LineStart, Action::Noop, c)
        } else if is_key_value_separator_char(c) {
            goto(m, State::Error, Action::Noop, c)
        } else if is_letter_char(c) {
            goto(m, State::AttrKey, Action::BeginAttrKey, c)
        } else {
            m
        },
        State::LineStart => if is_blank_char(c) {
            goto(m, State::Blank, Action::Noop, c)
        } else if is_comment_marker_char(c) {
            goto(m, State::Comment, Action::Noop, c)
        } else if is_key_value_separator_char(c) {
            goto(m, State::Error, Action::Noop, c)
        } else if is_letter_char(c) {
            goto(m, State::EntryName, Action::BeginEntry, c)
        } else {
            m
        },
        State::Comment => if !is_line_break_char(c) {
            goto(m, State::Comment, Action::Noop, c)
        } else {
            goto(m, State::LineStart, Action::Noop, c)
        },
        State::EntryName => if is_ident_char(c) {
            goto(m, State::EntryName, Action::ExtendEntryName, c)
        } else if is_blank_char(c) {
            goto(m, State::Blank, Action::Noop, c)
        } else if is_comment_marker_char(c) {
            goto(m, State::Comment, Action::Noop, c)
        } else if is_line_break_char(c) {
            goto(m, State::LineStart, Action::Noop, c)
        } else if is_field_separator_char(c) {
            goto(m, State::InlineAttrSeparator, Action::Noop, c)
        } else {
            m
        },
        State::InlineAttrSeparator => if is_value_start_char(c) {
            goto(m, State::InlineAttrValue, Action::BeginInlineAttr, c)
        } else {
            m
        },
        State::InlineAttrValue => if is_value_start_char(c) {
            goto(m, State::InlineAttrValue, Action::ExtendAttrValue, c)
        } else if is_blank_char(c) {
            goto(m, State::Blank, Action::CommitAttrValue, c)
        } else if is_comment_marker_char(c) {
            goto(m, State::Comment, Action::CommitAttrValue, c)
        } else if is_line_break_char(c) {
            goto(m, State::LineStart, Action::CommitAttrValue, c)
        } else {
            m
        },
        State::AttrKey => if is_key_char(c) {
            goto(m, State::AttrKey, Action::ExtendAttrKey, c)
        } else if is_comment_marker_char(c) {
            goto(m, State::Error, Action::Noop, c)
        } else if is_line_break_char(c) {
            goto(m, State::DanglingKey, Action::Noop, c)
        } else if is_key_value_separator_char(c) {
            goto(m, State::KeyValueSeparator, Action::EndAttrKey, c)
        } else {
            m
        },
        State::KeyValueSeparator => if is_value_start_char(c) {
            goto(m, State::AttrValue, Action::BeginAttrValue, c)
        } else if is_blank_char(c) {
            goto(m, State::AttrValueLeadingSpace, Action::Noop, c)
        } else {
            m
        },
        State::AttrValueLeadingSpace => if !is_blank_char(c) {
            goto(m, State::AttrValue, Action::BeginAttrValue, c)
        } else {
            m
        },
        State::AttrValue => if is_value_char(c) {
            goto(m, State::AttrValue, Action::ExtendAttrValue, c)
        } else if is_comment_marker_char(c) {
            goto(m, State::Comment, Action::CommitAttrValue, c)
        } else if is_line_break_char(c) {
            goto(m, State::LineStart, Action::CommitAttrValue, c)
        } else {
            m
        },
        State::Error => m,
        State::DanglingKey => m,
    }
}

/// Scanning the ordered table for the first matching rule computes exactly
/// `step_fn`: the table and its closed-form reading agree on every context
/// and every character.
pub proof fn lemma_step_is_step_fn(m: ScanModel, c: char)
    ensures
        spec_step(m, c) == step_fn(m, c),
{
    reveal_with_fuel(first_match_from, 33);
}

/// Scanning a concatenation scans its parts in order.
pub proof fn lemma_scan_concat(m: ScanModel, a: Seq<char>, b: Seq<char>)
    ensures
        spec_scan_from(m, a + b) == spec_scan_from(spec_scan_from(m, a), b),
    decreases b.len(),
{
    if b.len() == 0 {
        assert(a + b == a);
    } else {
        lemma_scan_concat(m, a, b.drop_last());
        assert((a + b).drop_last() == a + b.drop_last());
        assert((a + b).last() == b.last());
    }
}

/// `Error` and `DanglingKey` are absorbing: once either is entered, every
/// later character is consumed with no transition and no action, so nothing
/// further is added to the output — or changed anywhere in the context — for
/// the remainder of the stream.
pub proof fn lemma_absorbing_states(m: ScanModel, s: Seq<char>)
    requires
        m.state == State::Error || m.state == State::DanglingKey,
    ensures
        spec_scan_from(m, s) == m,
    decreases s.len(),
{
    if s.len() > 0 {
        lemma_absorbing_states(m, s.drop_last());
        lemma_step_is_step_fn(m, s.last());
    }
}

/// One step never rewrites or reorders what stands in the output: it either
/// leaves the output alone or appends one committed entry to its end.
pub proof fn lemma_step_output_append(m: ScanModel, c: char)
    ensures
        spec_step(m, c).out == m.out || spec_step(m, c).out == m.out.push(m.cur->0),
{
    lemma_step_is_step_fn(m, c);
}

/// The output is append-only: every record already committed after any
/// prefix of the input stands unchanged, at its position, in the output of
/// the longer scan. Entries therefore appear in the order they were begun in
/// the source.
pub proof fn lemma_output_append_only(m: ScanModel, s: Seq<char>)
    ensures
        spec_scan_from(m, s).out.len() >= m.out.len(),
        forall|i: int| 0 <= i < m.out.len() ==> spec_scan_from(m, s).out[i] == m.out[i],
    decreases s.len(),
{
    if s.len() > 0 {
        lemma_output_append_only(m, s.drop_last());
        lemma_step_output_append(spec_scan_from(m, s.drop_last()), s.last());
    }
}

/// Attribute values preserve interior and trailing whitespace: while a value
/// is under construction, every character other than a comment marker or a
/// line break — blanks included — is appended to the pending value exactly as
/// read, and a comment marker or line break commits the pending value exactly
/// as accumulated, with no trimming.
pub proof fn lemma_value_retains_whitespace(m: ScanModel, c: char)
    requires
        m.state == State::AttrValue,
        m.val is Some,
    ensures
        is_value_char(c) ==> spec_step(m, c).val == Some(m.val->0.push(c)),
        !is_value_char(c) && m.cur is Some && m.key is Some ==> spec_step(m, c).cur
            == Some(
            EntryModel { attrs: m.cur->0.attrs.insert(m.key->0, m.val->0), ..m.cur->0 },
        ),
{
    lemma_step_is_step_fn(m, c);
}

/// The attribute map is last-write-wins: of two writes to the same key, the
/// later one's value is retained, whatever the first wrote.
pub proof fn lemma_last_write_wins(
    attrs: Map<Seq<char>, Seq<char>>,
    k: Seq<char>,
    v1: Seq<char>,
    v2: Seq<char>,
)
    ensures
        attrs.insert(k, v1).insert(k, v2) == attrs.insert(k, v2),
{
    assert(attrs.insert(k, v1).insert(k, v2) =~= attrs.insert(k, v2));
}

/// End of stream forces a commit: the final flush appends the still-open
/// entry, if any, to the output as it stands, and adds nothing else — no
/// trailing line break is needed.
pub proof fn lemma_end_of_stream_commits(m: ScanModel)
    ensures
        m.cur is Some ==> spec_flush(m) == m.out.push(m.cur->0),
        m.cur is None ==> spec_flush(m) == m.out,
{
}

/// Scanning identifier characters while a name is open extends the name,
/// character for character, and nothing else moves.
proof fn lemma_name_run(m: ScanModel, s: Seq<char>)
    requires
        m.state == State::EntryName,
        m.cur is Some,
        forall|i: int| 0 <= i < s.len() ==> is_ident_char(#[trigger] s[i]),
    ensures
        spec_scan_from(m, s) == (ScanModel {
            cur: Some(EntryModel { name: m.cur->0.name + s, ..m.cur->0 }),
            ..m
        }),
    decreases s.len(),
{
    if s.len() == 0 {
        assert(m.cur->0.name + s =~= m.cur->0.name);
        assert(spec_scan_from(m, s) =~= (ScanModel {
            cur: Some(EntryModel { name: m.cur->0.name + s, ..m.cur->0 }),
            ..m
        }));
    } else {
        lemma_name_run(m, s.drop_last());
        lemma_step_is_step_fn(spec_scan_from(m, s.drop_last()), s.last());
        assert(m.cur->0.name + s.drop_last() + seq![s.last()] =~= m.cur->0.name + s);
        assert(spec_scan_from(m, s) =~= (ScanModel {
            cur: Some(EntryModel { name: m.cur->0.name + s, ..m.cur->0 }),
            ..m
        }));
    }
}

/// Scanning key characters while a key is open extends the key.
proof fn lemma_key_run(m: ScanModel, s: Seq<char>)
    requires
        m.state == State::AttrKey,
        m.key is Some,
        forall|i: int| 0 <= i < s.len() ==> is_key_char(#[trigger] s[i]),
    ensures
        spec_scan_from(m, s) == (ScanModel { key: Some(m.key->0 + s), ..m }),
    decreases s.len(),
{
    if s.len() == 0 {
        assert(m.key->0 + s =~= m.key->0);
        assert(spec_scan_from(m, s) =~= (ScanModel { key: Some(m.key->0 + s), ..m }));
    } else {
        lemma_key_run(m, s.drop_last());
        lemma_step_is_step_fn(spec_scan_from(m, s.drop_last()), s.last());
        assert(m.key->0 + s.drop_last() + seq![s.last()] =~= m.key->0 + s);
        assert(spec_scan_from(m, s) =~= (ScanModel { key: Some(m.key->0 + s), ..m }));
    }
}

/// Scanning value characters while a value is open extends the value.
proof fn lemma_value_run(m: ScanModel, s: Seq<char>)
    requires
        m.state == State::AttrValue,
        m.val is Some,
        forall|i: int| 0 <= i < s.len() ==> is_value_char(#[trigger] s[i]),
    ensures
        spec_scan_from(m, s) == (ScanModel { val: Some(m.val->0 + s), ..m }),
    decreases s.len(),
{
    if s.len() == 0 {
        assert(m.val->0 + s =~= m.val->0);
        assert(spec_scan_from(m, s) =~= (ScanModel { val: Some(m.val->0 + s), ..m }));
    } else {
        lemma_value_run(m, s.drop_last());
        lemma_step_is_step_fn(spec_scan_from(m, s.drop_last()), s.last());
        assert(m.val->0 + s.drop_last() + seq![s.last()] =~= m.val->0 + s);
        assert(spec_scan_from(m, s) =~= (ScanModel { val: Some(m.val->0 + s), ..m }));
    }
}

/// Scanning inline-value characters while an inline value is open extends
/// the value.
proof fn lemma_inline_value_run(m: ScanModel, s: Seq<char>)
    requires
        m.state == State::InlineAttrValue,
        m.val is Some,
        forall|i: int| 0 <= i < s.len() ==> is_value_start_char(#[trigger] s[i]),
    ensures
        spec_scan_from(m, s) == (ScanModel { val: Some(m.val->0 + s), ..m }),
    decreases s.len(),
{
    if s.len() == 0 {
        assert(m.val->0 + s =~= m.val->0);
        assert(spec_scan_from(m, s) =~= (ScanModel { val: Some(m.val->0 + s), ..m }));
    } else {
        lemma_inline_value_run(m, s.drop_last());
        lemma_step_is_step_fn(spec_scan_from(m, s.drop_last()), s.last());
        assert(m.val->0 + s.drop_last() + seq![s.last()] =~= m.val->0 + s);
        assert(spec_scan_from(m, s) =~= (ScanModel { val: Some(m.val->0 + s), ..m }));
    }
}

/// Blanks scanned in the `Blank` state are consumed with no effect on the
/// context beyond the state staying put.
proof fn lemma_blank_run(m: ScanModel, s: Seq<char>)
    requires
        m.state == State::Blank,
        forall|i: int| 0 <= i < s.len() ==> is_blank_char(#[trigger] s[i]),
    ensures
        spec_scan_from(m, s) == m,
    decreases s.len(),
{
    if s.len() > 0 {
        lemma_blank_run(m, s.drop_last());
        lemma_step_is_step_fn(m, s.last());
        assert(spec_scan_from(m, s) =~= m);
    }
}

/// Blanks scanned while leading whitespace of a value is being skipped are
/// consumed with no effect: no rule matches them.
proof fn lemma_gap_run(m: ScanModel, s: Seq<char>)
    requires
        m.state == State::AttrValueLeadingSpace,
        forall|i: int| 0 <= i < s.len() ==> is_blank_char(#[trigger] s[i]),
    ensures
        spec_scan_from(m, s) == m,
    decreases s.len(),
{
    if s.len() > 0 {
        lemma_gap_run(m, s.drop_last());
        lemma_step_is_step_fn(m, s.last());
        assert(spec_scan_from(m, s) =~= m);
    }
}

/// The shape of one well-formed source line: an entry header, an entry
/// header with an inline attribute, or an indented attribute line.
pub enum SourceLine {
    Header { name: Seq<char> },
    InlineHeader { name: Seq<char>, sep: char, value: Seq<char> },
    AttrLine { indent: Seq<char>, key: Seq<char>, gap: Seq<char>, value: Seq<char> },
}

/// Whether the parts of a line satisfy the grammar: a header is a letter
/// followed by identifier characters, an inline attribute is a field
/// separator followed by at least one value character, and an attribute line
/// is indentation, a letter-initial key, the key/value separator, optional
/// blanks, and at least one value character.
pub open spec fn wf_line(ln: SourceLine) -> bool {
    match ln {
        SourceLine::Header { name } => {
            &&& name.len() >= 1
            &&& is_letter_char(name[0])
            &&& forall|i: int| 1 <= i < name.len() ==> is_ident_char(#[trigger] name[i])
        },
        SourceLine::InlineHeader { name, sep, value } => {
            &&& name.len() >= 1
            &&& is_letter_char(name[0])
            &&& forall|i: int| 1 <= i < name.len() ==> is_ident_char(#[trigger] name[i])
            &&& is_field_separator_char(sep)
            &&& value.len() >= 1
            &&& forall|i: int| 0 <= i < value.len() ==> is_value_start_char(#[trigger] value[i])
        },
        SourceLine::AttrLine { indent, key, gap, value } => {
            &&& indent.len() >= 1
            &&& forall|i: int| 0 <= i < indent.len() ==> is_blank_char(#[trigger] indent[i])
            &&& key.len() >= 1
            &&& is_letter_char(key[0])
            &&& forall|i: int| 1 <= i < key.len() ==> is_key_char(#[trigger] key[i])
            &&& forall|i: int| 0 <= i < gap.len() ==> is_blank_char(#[trigger] gap[i])
            &&& value.len() >= 1
            &&& is_value_start_char(value[0])
            &&& forall|i: int| 1 <= i < value.len() ==> is_value_char(#[trigger] value[i])
        },
    }
}

/// The text of a line, including its terminating line break.
pub open spec fn line_text(ln: SourceLine) -> Seq<char> {
    match ln {
        SourceLine::Header { name } => name + seq!['\n'],
        SourceLine::InlineHeader { name, sep, value } => name + seq![sep] + value + seq!['\n'],
        SourceLine::AttrLine { indent, key, gap, value } => indent + key + seq![':'] + gap + value
            + seq!['\n'],
    }
}

/// Whether the line opens an entry: exactly the unindented, letter-initial
/// lines do.
pub open spec fn is_header_line(ln: SourceLine) -> bool {
    ln is Header || ln is InlineHeader
}

/// A well-formed line is a header line if and only if its text begins with a
/// letter in column zero; an attribute line's text begins with a blank.
pub proof fn lemma_header_lines_are_letter_initial(ln: SourceLine)
    requires
        wf_line(ln),
    ensures
        line_text(ln).len() > 0,
        is_header_line(ln) <==> is_letter_char(line_text(ln)[0]),
{
}

/// The name of the entry a header line opens.
pub open spec fn line_name(ln: SourceLine) -> Seq<char> {
    match ln {
        SourceLine::Header { name } => name,
        SourceLine::InlineHeader { name, .. } => name,
        SourceLine::AttrLine { .. } => Seq::empty(),
    }
}

/// The names of the header lines, in source order.
pub open spec fn header_names(lines: Seq<SourceLine>) -> Seq<Seq<char>>
    decreases lines.len(),
{
    if lines.len() == 0 {
        Seq::empty()
    } else {
        header_names(lines.drop_last()) + (if is_header_line(lines.last()) {
            seq![line_name(lines.last())]
        } else {
            Seq::empty()
        })
    }
}

/// The text of a whole document: its lines, in order.
pub open spec fn doc_text(lines: Seq<SourceLine>) -> Seq<char>
    decreases lines.len(),
{
    if lines.len() == 0 {
        Seq::empty()
    } else {
        doc_text(lines.drop_last()) + line_text(lines.last())
    }
}

/// The names of a sequence of records, in order.
pub open spec fn names_of(s: Seq<EntryModel>) -> Seq<Seq<char>> {
    s.map_values(|e: EntryModel| e.name)
}

/// Scanning a single character is one step.
proof fn lemma_scan_single(m: ScanModel, c: char)
    ensures
        spec_scan_from(m, seq![c]) == spec_step(m, c),
{
    assert(seq![c].drop_last() =~= Seq::<char>::empty());
    assert(spec_scan_from(m, seq![c].drop_last()) == m);
}

/// Scanning a plain header line from the start of a line commits the open
/// entry, if any, and leaves a fresh entry of that name open, back at the
/// start of a line.
proof fn lemma_header_line(m: ScanModel, name: Seq<char>)
    requires
        m.state == State::LineStart,
        wf_line(SourceLine::Header { name }),
    ensures
        spec_scan_from(m, line_text(SourceLine::Header { name })) == (ScanModel {
            state: State::LineStart,
            cur: Some(EntryModel { name: name, attrs: Map::empty() }),
            out: spec_flush(m),
            ..m
        }),
{
    let s1 = seq![name[0]];
    let s2 = name.subrange(1, name.len() as int);
    let s3 = seq!['\n'];
    let total = line_text(SourceLine::Header { name });
    assert(total =~= (s1 + s2) + s3);
    lemma_scan_single(m, name[0]);
    lemma_step_is_step_fn(m, name[0]);
    let m1 = spec_scan_from(m, s1);
    lemma_name_run(m1, s2);
    let m2 = spec_scan_from(m1, s2);
    assert(m1.cur->0.name + s2 =~= name);
    lemma_scan_single(m2, '\n');
    lemma_step_is_step_fn(m2, '\n');
    lemma_scan_concat(m, s1, s2);
    lemma_scan_concat(m, s1 + s2, s3);
    assert(spec_scan_from(m, total) =~= (ScanModel {
        state: State::LineStart,
        cur: Some(EntryModel { name: name, attrs: Map::empty() }),
        out: spec_flush(m),
        ..m
    }));
}

/// Scanning a header line with an inline attribute commits the open entry,
/// if any, and leaves a fresh entry of that name open, carrying the inline
/// value under the fixed key `score`, back at the start of a line.
proof fn lemma_inline_header_line(m: ScanModel, name: Seq<char>, sep: char, value: Seq<char>)
    requires
        m.state == State::LineStart,
        wf_line(SourceLine::InlineHeader { name, sep, value }),
    ensures
        spec_scan_from(m, line_text(SourceLine::InlineHeader { name, sep, value })) == (ScanModel {
            state: State::LineStart,
            cur: Some(
                EntryModel {
                    name: name,
                    attrs: Map::<Seq<char>, Seq<char>>::empty().insert("score"@, value),
                },
            ),
            key: Some("score"@),
            val: Some(value),
            out: spec_flush(m),
        }),
{
    let s1 = seq![name[0]];
    let s2 = name.subrange(1, name.len() as int);
    let s3 = seq![sep, value[0]];
    let s4 = value.subrange(1, value.len() as int);
    let s5 = seq!['\n'];
    let total = line_text(SourceLine::InlineHeader { name, sep, value });
    assert(total =~= ((((s1 + s2) + s3) + s4) + s5));
    lemma_scan_single(m, name[0]);
    lemma_step_is_step_fn(m, name[0]);
    let m1 = spec_scan_from(m, s1);
    lemma_name_run(m1, s2);
    let m2 = spec_scan_from(m1, s2);
    assert(m1.cur->0.name + s2 =~= name);
    lemma_step_is_step_fn(m2, sep);
    let m3 = spec_step(m2, sep);
    lemma_step_is_step_fn(m3, value[0]);
    let m4 = spec_step(m3, value[0]);
    assert(s3 =~= seq![sep] + seq![value[0]]);
    lemma_scan_concat(m2, seq![sep], seq![value[0]]);
    lemma_scan_single(m2, sep);
    lemma_scan_single(m3, value[0]);
    assert(spec_scan_from(m2, s3) == m4);
    lemma_inline_value_run(m4, s4);
    let m5 = spec_scan_from(m4, s4);
    assert(m4.val->0 + s4 =~= value);
    lemma_scan_single(m5, '\n');
    lemma_step_is_step_fn(m5, '\n');
    lemma_scan_concat(m, s1, s2);
    lemma_scan_concat(m, s1 + s2, s3);
    lemma_scan_concat(m, (s1 + s2) + s3, s4);
    lemma_scan_concat(m, ((s1 + s2) + s3) + s4, s5);
    assert(spec_scan_from(m, total) =~= (ScanModel {
        state: State::LineStart,
        cur: Some(
            EntryModel {
                name: name,
                attrs: Map::<Seq<char>, Seq<char>>::empty().insert("score"@, value),
            },
        ),
        key: Some("score"@),
        val: Some(value),
        out: spec_flush(m),
    }));
}

/// How a committed attribute lands on the open entry: inserted into its map
/// when an entry is open, discarded when none is.
pub open spec fn attr_commit(cur: Option<EntryModel>, k: Seq<char>, v: Seq<char>) -> Option<
    EntryModel,
> {
    match cur {
        Some(e) => Some(EntryModel { attrs: e.attrs.insert(k, v), ..e }),
        None => None,
    }
}

/// Scanning an indented attribute line from the start of a line attaches the
/// key/value pair to the open entry — or discards it when no entry is open —
/// commits nothing to the output, and returns to the start of a line.
proof fn lemma_attr_line(
    m: ScanModel,
    indent: Seq<char>,
    key: Seq<char>,
    gap: Seq<char>,
    value: Seq<char>,
)
    requires
        m.state == State::LineStart,
        wf_line(SourceLine::AttrLine { indent, key, gap, value }),
    ensures
        spec_scan_from(m, line_text(SourceLine::AttrLine { indent, key, gap, value }))
            == (ScanModel {
            state: State::LineStart,
            cur: attr_commit(m.cur, key, value),
            key: Some(key),
            val: Some(value),
            out: m.out,
        }),
{
    let s1 = seq![indent[0]];
    let s2 = indent.subrange(1, indent.len() as int);
    let s3 = seq![key[0]];
    let s4 = key.subrange(1, key.len() as int);
    let s5 = seq![':'];
    let s6 = gap;
    let s7 = seq![value[0]];
    let s8 = value.subrange(1, value.len() as int);
    let s9 = seq!['\n'];
    let total = line_text(SourceLine::AttrLine { indent, key, gap, value });
    assert(total =~= ((((((((s1 + s2) + s3) + s4) + s5) + s6) + s7) + s8) + s9));
    lemma_scan_single(m, indent[0]);
    lemma_step_is_step_fn(m, indent[0]);
    let m1 = spec_step(m, indent[0]);
    assert(spec_scan_from(m, s1) == m1);
    lemma_blank_run(m1, s2);
    lemma_scan_single(m1, key[0]);
    lemma_step_is_step_fn(m1, key[0]);
    let m2 = spec_step(m1, key[0]);
    assert(spec_scan_from(m1, s3) == m2);
    lemma_key_run(m2, s4);
    let m3 = spec_scan_from(m2, s4);
    assert(m2.key->0 + s4 =~= key);
    lemma_scan_single(m3, ':');
    lemma_step_is_step_fn(m3, ':');
    let m4 = spec_step(m3, ':');
    assert(spec_scan_from(m3, s5) == m4);
    assert(!is_key_char(':'));
    let m5 = spec_scan_from(m4, s6);
    if gap.len() == 0 {
        assert(s6 =~= Seq::<char>::empty());
        assert(m5 == m4);
    } else {
        let g1 = seq![gap[0]];
        let g2 = gap.subrange(1, gap.len() as int);
        assert(s6 =~= g1 + g2);
        lemma_scan_single(m4, gap[0]);
        lemma_step_is_step_fn(m4, gap[0]);
        let mg = spec_step(m4, gap[0]);
        lemma_gap_run(mg, g2);
        lemma_scan_concat(m4, g1, g2);
        assert(m5 == mg);
    }
    lemma_scan_single(m5, value[0]);
    lemma_step_is_step_fn(m5, value[0]);
    let m6 = spec_step(m5, value[0]);
    assert(spec_scan_from(m5, s7) == m6);
    lemma_value_run(m6, s8);
    let m7 = spec_scan_from(m6, s8);
    assert(m6.val->0 + s8 =~= value);
    lemma_scan_single(m7, '\n');
    lemma_step_is_step_fn(m7, '\n');
    lemma_scan_concat(m, s1, s2);
    lemma_scan_concat(m, s1 + s2, s3);
    lemma_scan_concat(m, (s1 + s2) + s3, s4);
    lemma_scan_concat(m, ((s1 + s2) + s3) + s4, s5);
    lemma_scan_concat(m, (((s1 + s2) + s3) + s4) + s5, s6);
    lemma_scan_concat(m, ((((s1 + s2) + s3) + s4) + s5) + s6, s7);
    lemma_scan_concat(m, (((((s1 + s2) + s3) + s4) + s5) + s6) + s7, s8);
    lemma_scan_concat(m, ((((((s1 + s2) + s3) + s4) + s5) + s6) + s7) + s8, s9);
    assert(spec_scan_from(m7, s9) == spec_step(m7, '\n'));
    assert(spec_scan_from(m, total) =~= (ScanModel {
        state: State::LineStart,
        cur: attr_commit(m.cur, key, value),
        key: Some(key),
        val: Some(value),
        out: m.out,
    }));
}

/// Scanning any sequence of well-formed lines from the start of a line ends
/// back at the start of a line, and the records owed after a final flush are
/// those already owed, followed by one record per header line, named in
/// source order.
proof fn lemma_scan_lines(m: ScanModel, lines: Seq<SourceLine>)
    requires
        m.state == State::LineStart,
        forall|i: int| 0 <= i < lines.len() ==> wf_line(#[trigger] lines[i]),
    ensures
        spec_scan_from(m, doc_text(lines)).state == State::LineStart,
        names_of(spec_flush(spec_scan_from(m, doc_text(lines)))) == names_of(spec_flush(m))
            + header_names(lines),
    decreases lines.len(),
{
    if lines.len() == 0 {
        assert(doc_text(lines) =~= Seq::<char>::empty());
        assert(names_of(spec_flush(m)) + header_names(lines) =~= names_of(spec_flush(m)));
    } else {
        let butlast = lines.drop_last();
        let ln = lines.last();
        assert(wf_line(ln));
        lemma_scan_lines(m, butlast);
        let m1 = spec_scan_from(m, doc_text(butlast));
        lemma_scan_concat(m, doc_text(butlast), line_text(ln));
        let m2 = spec_scan_from(m1, line_text(ln));
        match ln {
            SourceLine::Header { name } => {
                lemma_header_line(m1, name);
                assert(names_of(spec_flush(m2)) =~= names_of(spec_flush(m1)).push(name));
                assert(names_of(spec_flush(m)) + header_names(lines) =~= names_of(spec_flush(m1)).push(
                    name,
                ));
            },
            SourceLine::InlineHeader { name, sep, value } => {
                lemma_inline_header_line(m1, name, sep, value);
                assert(names_of(spec_flush(m2)) =~= names_of(spec_flush(m1)).push(name));
                assert(names_of(spec_flush(m)) + header_names(lines) =~= names_of(spec_flush(m1)).push(
                    name,
                ));
            },
            SourceLine::AttrLine { indent, key, gap, value } => {
                lemma_attr_line(m1, indent, key, gap, value);
                assert(names_of(spec_flush(m2)) =~= names_of(spec_flush(m1)));
                assert(names_of(spec_flush(m)) + header_names(lines) =~= names_of(spec_flush(m1)));
            },
        }
    }
}

/// For any document made only of well-formed entry header lines and
/// attribute lines, the scan yields exactly one record per header line — the
/// unindented, letter-initial lines — and the records' names stand in the
/// source order of those lines. In particular the number of records equals
/// the number of unindented, letter-initial lines, and the output order
/// equals the source order of the first character of each entry's name.
pub proof fn lemma_entry_count_and_order(lines: Seq<SourceLine>)
    requires
        forall|i: int| 0 <= i < lines.len() ==> wf_line(#[trigger] lines[i]),
    ensures
        names_of(spec_parse(doc_text(lines))) == header_names(lines),
        spec_parse(doc_text(lines)).len() == header_names(lines).len(),
{
    lemma_scan_lines(init_model(), lines);
    assert(names_of(spec_flush(init_model())) =~= Seq::<Seq<char>>::empty());
    assert(Seq::<Seq<char>>::empty() + header_names(lines) =~= header_names(lines));
}

} // verus!
