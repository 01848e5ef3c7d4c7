//! The scanning engine: for each character, find the first table rule whose
//! source state matches the current state and whose guard accepts the
//! character, run its action and move to its target; with no matching rule,
//! leave state and context unchanged. When the stream is exhausted, force a
//! final commit of the open entry.

use vstd::prelude::*;
use vstd::string::*;

use crate::chars::{guard_accepts, guard_eval};
use crate::machine::{spec_table, transitions, State, Transition};
use crate::parser::{apply_action, entries_view, init_model, parser_wf, spec_flush, Parser, ScanModel};
use crate::records::Entry;

verus! {

/// The first rule at or after position `i` whose source is `s` and whose
/// guard accepts `c`.
pub open spec fn first_match_from(rules: Seq<Transition>, i: int, s: State, c: char) -> Option<
    Transition,
>
    decreases rules.len() - i,
{
    if i < 0 || i >= rules.len() {
        None
    } else if rules[i].source == s && guard_accepts(rules[i].guard, c) {
        Some(rules[i])
    } else {
        first_match_from(rules, i + 1, s, c)
    }
}

/// The first rule of the table that matches state `s` and character `c`.
pub open spec fn first_match(s: State, c: char) -> Option<Transition> {
    first_match_from(spec_table(), 0, s, c)
}

/// What one character does to the whole context: the first matching rule's
/// action and target state, or nothing when no rule matches.
pub open spec fn spec_step(m: ScanModel, c: char) -> ScanModel {
    match first_match(m.state, c) {
        Some(t) => ScanModel { state: t.target, ..apply_action(m, t.action, c) },
        None => m,
    }
}

/// The context after scanning every character of `s`, in order, from `m`.
pub open spec fn spec_scan_from(m: ScanModel, s: Seq<char>) -> ScanModel
    decreases s.len(),
{
    if s.len() == 0 {
        m
    } else {
        spec_step(spec_scan_from(m, s.drop_last()), s.last())
    }
}

/// The records a whole scan of `input` yields: every character is consumed in
/// order from the initial context, and the end of the stream commits the
/// still-open entry, whatever the final state.
pub open spec fn spec_parse(input: Seq<char>) -> Seq<crate::records::EntryModel> {
    spec_flush(spec_scan_from(init_model(), input))
}

/// Consumes one character: scans the table in order for the first rule whose
/// source state and guard both match, applies its action, and moves to its
/// target state; a character matched by no rule has no effect.
pub fn scan_char(p: &mut Parser, table: &Vec<Transition>, c: char)
    requires
        parser_wf(*old(p)),
        table@ == spec_table(),
    ensures
        parser_wf(*final(p)),
        final(p)@ == spec_step(old(p)@, c),
{
    let n = table.len();
    let mut i: usize = 0;
    while i < n
        invariant
            parser_wf(*p),
            *p == *old(p),
            table@ == spec_table(),
            n == table@.len(),
            i <= n,
            first_match(old(p)@.state, c) == first_match_from(table@, i as int, old(p)@.state, c),
        decreases n - i,
    {
        let t = table[i];
        if t.source == p.state && guard_eval(t.guard, c) {
            p.apply(t.action, c);
            p.state = t.target;
            return;
        }
        i += 1;
    }
}

/// Whether the state is one of the absorbing error states.
pub open spec fn absorbing(st: State) -> bool {
    st == State::Error || st == State::DanglingKey
}

/// Scans the whole input and returns the ordered records it describes,
/// together with a diagnostic: the position of the character that drove the
/// scan into an absorbing error state, if any did. The records are the same
/// as those of `parse` — the silent absorb semantics is kept — but a caller
/// that wants to fail fast can treat the reported position as fatal.
pub fn parse_report(input: &str) -> (r: (Vec<Entry>, Option<usize>))
    ensures
        entries_view(r.0@) == spec_parse(input@),
        forall|i: int| 0 <= i < r.0@.len() ==> (#[trigger] r.0@[i]).attributes.wf(),
        match r.1 {
            Some(k) => {
                &&& k < input@.len()
                &&& absorbing(spec_scan_from(init_model(), input@.take(k + 1)).state)
                &&& forall|j: int|
                    0 <= j <= k ==> !absorbing(
                        spec_scan_from(init_model(), #[trigger] input@.take(j)).state,
                    )
            },
            None => forall|j: int|
                0 <= j <= input@.len() ==> !absorbing(
                    spec_scan_from(init_model(), #[trigger] input@.take(j)).state,
                ),
        },
{
    let table = transitions();
    let mut p = Parser::new();
    let mut fault: Option<usize> = None;
    let n = input.unicode_len();
    let mut i: usize = 0;
    while i < n
        invariant
            parser_wf(p),
            table@ == spec_table(),
            n == input@.len(),
            i <= n,
            p@ == spec_scan_from(init_model(), input@.take(i as int)),
            match fault {
                Some(k) => {
                    &&& k < i
                    &&& absorbing(spec_scan_from(init_model(), input@.take(k + 1)).state)
                    &&& forall|j: int|
                        0 <= j <= k ==> !absorbing(
                            spec_scan_from(init_model(), #[trigger] input@.take(j)).state,
                        )
                },
                None => forall|j: int|
                    0 <= j <= i ==> !absorbing(
                        spec_scan_from(init_model(), #[trigger] input@.take(j)).state,
                    ),
            },
        decreases n - i,
    {
        let c = input.get_char(i);
        scan_char(&mut p, &table, c);
        proof {
            assert(input@.take(i + 1 as int).drop_last() == input@.take(i as int));
            assert(input@.take(i + 1 as int).last() == input@[i as int]);
        }
        if fault.is_none() && (p.state == State::Error || p.state == State::DanglingKey) {
            fault = Some(i);
        }
        i += 1;
    }
    proof {
        assert(input@.take(n as int) == input@);
    }
    p.end_word();
    (p.parsed_words, fault)
}

/// Scans the whole input and returns the ordered records it describes.
pub fn parse(input: &str) -> (out: Vec<Entry>)
    ensures
        entries_view(out@) == spec_parse(input@),
        forall|i: int| 0 <= i < out@.len() ==> (#[trigger] out@[i]).attributes.wf(),
{
    let r = parse_report(input);
    r.0
}

} // verus!
