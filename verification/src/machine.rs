//! The scan states, the action kinds, and the ordered transition table.
//! Order is significant: the engine applies the first rule whose source state
//! and guard both match, and a character matched by no rule is consumed with
//! no effect.

use vstd::prelude::*;

use crate::chars::Guard;

verus! {

/// The scan states. The initial state is `LineStart`. `Error` and
/// `DanglingKey` are absorbing: no rule has either as its source, so once one
/// is entered every later character is consumed with no effect.
#[derive(PartialEq, Eq, Copy, Clone, Debug, Structural)]
pub enum State {
    Blank,
    LineStart,
    Comment,
    EntryName,
    AttrKey,
    AttrValue,
    AttrValueLeadingSpace,
    KeyValueSeparator,
    Error,
    DanglingKey,
    InlineAttrSeparator,
    InlineAttrValue,
}

/// The action kinds: each names one pure mutation of the accumulation
/// context, dispatched by the engine through a single interpreter.
#[derive(PartialEq, Eq, Copy, Clone, Debug, Structural)]
pub enum Action {
    Noop,
    BeginEntry,
    ExtendEntryName,
    BeginAttrKey,
    ExtendAttrKey,
    EndAttrKey,
    BeginAttrValue,
    ExtendAttrValue,
    CommitAttrValue,
    BeginInlineAttr,
}

/// One rule of the transition table: from `source`, on a character that
/// `guard` accepts, run `action` and move to `target`.
#[derive(Copy, Clone, Debug)]
pub struct Transition {
    pub source: State,
    pub guard: Guard,
    pub target: State,
    pub action: Action,
}

/// The transition table, in the order the engine scans it.
pub open spec fn spec_table() -> Seq<Transition> {
    seq![
        // Blank: inside a line, after horizontal whitespace.
        Transition { source: State::Blank, guard: Guard::Blank, target: State::Blank, action: Action::Noop },
        Transition { source: State::Blank, guard: Guard::CommentMarker, target: State::Comment, action: Action::Noop },
        Transition { source: State::Blank, guard: Guard::LineBreak, target: State::LineStart, action: Action::Noop },
        Transition { source: State::Blank, guard: Guard::KeyValueSeparator, target: State::Error, action: Action::Noop },
        Transition { source: State::Blank, guard: Guard::Letter, target: State::AttrKey, action: Action::BeginAttrKey },
        // LineStart: at column zero.
        Transition { source: State::LineStart, guard: Guard::Blank, target: State::Blank, action: Action::Noop },
        Transition { source: State::LineStart, guard: Guard::CommentMarker, target: State::Comment, action: Action::Noop },
        Transition { source: State::LineStart, guard: Guard::KeyValueSeparator, target: State::Error, action: Action::Noop },
        Transition { source: State::LineStart, guard: Guard::Letter, target: State::EntryName, action: Action::BeginEntry },
        // Comment: runs to the end of the line.
        Transition { source: State::Comment, guard: Guard::NotLineBreak, target: State::Comment, action: Action::Noop },
        Transition { source: State::Comment, guard: Guard::LineBreak, target: State::LineStart, action: Action::Noop },
        // EntryName: an entry name under construction.
        Transition { source: State::EntryName, guard: Guard::IdentChar, target: State::EntryName, action: Action::ExtendEntryName },
        Transition { source: State::EntryName, guard: Guard::Blank, target: State::Blank, action: Action::Noop },
        Transition { source: State::EntryName, guard: Guard::CommentMarker, target: State::Comment, action: Action::Noop },
        Transition { source: State::EntryName, guard: Guard::LineBreak, target: State::LineStart, action: Action::Noop },
        Transition { source: State::EntryName, guard: Guard::FieldSeparator, target: State::InlineAttrSeparator, action: Action::Noop },
        // InlineAttrSeparator: just after the `;` or `:` of an inline attribute.
        Transition { source: State::InlineAttrSeparator, guard: Guard::ValueStartChar, target: State::InlineAttrValue, action: Action::BeginInlineAttr },
        // InlineAttrValue: an inline attribute value under construction.
        Transition { source: State::InlineAttrValue, guard: Guard::ValueStartChar, target: State::InlineAttrValue, action: Action::ExtendAttrValue },
        Transition { source: State::InlineAttrValue, guard: Guard::Blank, target: State::Blank, action: Action::CommitAttrValue },
        Transition { source: State::InlineAttrValue, guard: Guard::CommentMarker, target: State::Comment, action: Action::CommitAttrValue },
        Transition { source: State::InlineAttrValue, guard: Guard::LineBreak, target: State::LineStart, action: Action::CommitAttrValue },
        // AttrKey: an attribute key under construction.
        Transition { source: State::AttrKey, guard: Guard::KeyChar, target: State::AttrKey, action: Action::ExtendAttrKey },
        Transition { source: State::AttrKey, guard: Guard::CommentMarker, target: State::Error, action: Action::Noop },
        Transition { source: State::AttrKey, guard: Guard::LineBreak, target: State::DanglingKey, action: Action::Noop },
        Transition { source: State::AttrKey, guard: Guard::KeyValueSeparator, target: State::KeyValueSeparator, action: Action::EndAttrKey },
        // KeyValueSeparator: just after the `:` that ended a key.
        Transition { source: State::KeyValueSeparator, guard: Guard::ValueStartChar, target: State::AttrValue, action: Action::BeginAttrValue },
        Transition { source: State::KeyValueSeparator, guard: Guard::Blank, target: State::AttrValueLeadingSpace, action: Action::Noop },
        // AttrValueLeadingSpace: skipping blanks between the `:` and the value.
        Transition { source: State::AttrValueLeadingSpace, guard: Guard::NotBlank, target: State::AttrValue, action: Action::BeginAttrValue },
        // AttrValue: an attribute value under construction.
        Transition { source: State::AttrValue, guard: Guard::ValueChar, target: State::AttrValue, action: Action::ExtendAttrValue },
        Transition { source: State::AttrValue, guard: Guard::CommentMarker, target: State::Comment, action: Action::CommitAttrValue },
        Transition { source: State::AttrValue, guard: Guard::LineBreak, target: State::LineStart, action: Action::CommitAttrValue },
    ]
}

/// Builds the transition table the engine scans.
pub fn transitions() -> (t: Vec<Transition>)
    ensures
        t@ == spec_table(),
{
    let mut t: Vec<Transition> = Vec::new();
    t.push(Transition { source: State::Blank, guard: Guard::Blank, target: State::Blank, action: Action::Noop });
    t.push(Transition { source: State::Blank, guard: Guard::CommentMarker, target: State::Comment, action: Action::Noop });
    t.push(Transition { source: State::Blank, guard: Guard::LineBreak, target: State::LineStart, action: Action::Noop });
    t.push(Transition { source: State::Blank, guard: Guard::KeyValueSeparator, target: State::Error, action: Action::Noop });
    t.push(Transition { source: State::Blank, guard: Guard::Letter, target: State::AttrKey, action: Action::BeginAttrKey });
    t.push(Transition { source: State::LineStart, guard: Guard::Blank, target: State::Blank, action: Action::Noop });
    t.push(Transition { source: State::LineStart, guard: Guard::CommentMarker, target: State::Comment, action: Action::Noop });
    t.push(Transition { source: State::LineStart, guard: Guard::KeyValueSeparator, target: State::Error, action: Action::Noop });
    t.push(Transition { source: State::LineStart, guard: Guard::Letter, target: State::EntryName, action: Action::BeginEntry });
    t.push(Transition { source: State::Comment, guard: Guard::NotLineBreak, target: State::Comment, action: Action::Noop });
    t.push(Transition { source: State::Comment, guard: Guard::LineBreak, target: State::LineStart, action: Action::Noop });
    t.push(Transition { source: State::EntryName, guard: Guard::IdentChar, target: State::EntryName, action: Action::ExtendEntryName });
    t.push(Transition { source: State::EntryName, guard: Guard::Blank, target: State::Blank, action: Action::Noop });
    t.push(Transition { source: State::EntryName, guard: Guard::CommentMarker, target: State::Comment, action: Action::Noop });
    t.push(Transition { source: State::EntryName, guard: Guard::LineBreak, target: State::LineStart, action: Action::Noop });
    t.push(Transition { source: State::EntryName, guard: Guard::FieldSeparator, target: State::InlineAttrSeparator, action: Action::Noop });
    t.push(Transition { source: State::InlineAttrSeparator, guard: Guard::ValueStartChar, target: State::InlineAttrValue, action: Action::BeginInlineAttr });
    t.push(Transition { source: State::InlineAttrValue, guard: Guard::ValueStartChar, target: State::InlineAttrValue, action: Action::ExtendAttrValue });
    t.push(Transition { source: State::InlineAttrValue, guard: Guard::Blank, target: State::Blank, action: Action::CommitAttrValue });
    t.push(Transition { source: State::InlineAttrValue, guard: Guard::CommentMarker, target: State::Comment, action: Action::CommitAttrValue });
    t.push(Transition { source: State::InlineAttrValue, guard: Guard::LineBreak, target: State::LineStart, action: Action::CommitAttrValue });
    t.push(Transition { source: State::AttrKey, guard: Guard::KeyChar, target: State::AttrKey, action: Action::ExtendAttrKey });
    t.push(Transition { source: State::AttrKey, guard: Guard::CommentMarker, target: State::Error, action: Action::Noop });
    t.push(Transition { source: State::AttrKey, guard: Guard::LineBreak, target: State::DanglingKey, action: Action::Noop });
    t.push(Transition { source: State::AttrKey, guard: Guard::KeyValueSeparator, target: State::KeyValueSeparator, action: Action::EndAttrKey });
    t.push(Transition { source: State::KeyValueSeparator, guard: Guard::ValueStartChar, target: State::AttrValue, action: Action::BeginAttrValue });
    t.push(Transition { source: State::KeyValueSeparator, guard: Guard::Blank, target: State::AttrValueLeadingSpace, action: Action::Noop });
    t.push(Transition { source: State::AttrValueLeadingSpace, guard: Guard::NotBlank, target: State::AttrValue, action: Action::BeginAttrValue });
    t.push(Transition { source: State::AttrValue, guard: Guard::ValueChar, target: State::AttrValue, action: Action::ExtendAttrValue });
    t.push(Transition { source: State::AttrValue, guard: Guard::CommentMarker, target: State::Comment, action: Action::CommitAttrValue });
    t.push(Transition { source: State::AttrValue, guard: Guard::LineBreak, target: State::LineStart, action: Action::CommitAttrValue });
    proof {
        assert(t@ =~= spec_table());
    }
    t
}

} // verus!
