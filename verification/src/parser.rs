//! The accumulation context: the scan state, the entry and the attribute
//! key/value under construction, and the ordered output collection, together
//! with the action callbacks that the engine dispatches.

use vstd::prelude::*;
use vstd::string::*;

use crate::machine::{Action, State};
use crate::records::{push_char, AttrMap, Entry, EntryModel};

verus! {

/// The mathematical model of the accumulation context.
#[verifier::ext_equal]
pub struct ScanModel {
    pub state: State,
    pub cur: Option<EntryModel>,
    pub key: Option<Seq<char>>,
    pub val: Option<Seq<char>>,
    pub out: Seq<EntryModel>,
}

/// The model of a sequence of committed entries.
pub open spec fn entries_view(s: Seq<Entry>) -> Seq<EntryModel> {
    s.map_values(|e: Entry| e@)
}

/// The accumulation context of one scan: exactly one scan owns it from start
/// to finish.
pub struct Parser {
    pub state: State,
    pub current_word: Option<Entry>,
    pub current_var_key: Option<String>,
    pub current_var_value: Option<String>,
    pub parsed_words: Vec<Entry>,
}

impl View for Parser {
    type V = ScanModel;

    open spec fn view(&self) -> ScanModel {
        ScanModel {
            state: self.state,
            cur: match self.current_word {
                Some(w) => Some(w@),
                None => None,
            },
            key: match self.current_var_key {
                Some(k) => Some(k@),
                None => None,
            },
            val: match self.current_var_value {
                Some(v) => Some(v@),
                None => None,
            },
            out: entries_view(self.parsed_words@),
        }
    }
}

/// The model of the initial context: state `LineStart`, nothing under
/// construction, no output.
pub open spec fn init_model() -> ScanModel {
    ScanModel {
        state: State::LineStart,
        cur: None,
        key: None,
        val: None,
        out: Seq::empty(),
    }
}

/// What one action does to the model. Actions never change the scan state:
/// the engine sets that from the matched rule's target. An action that reads
/// a part of the context that is not under construction leaves the context
/// unchanged.
pub open spec fn apply_action(m: ScanModel, a: Action, c: char) -> ScanModel {
    match a {
        Action::Noop => m,
        Action::BeginEntry => ScanModel {
            cur: Some(EntryModel { name: seq![c], attrs: Map::empty() }),
            out: if m.cur is Some {
                m.out.push(m.cur->0)
            } else {
                m.out
            },
            ..m
        },
        Action::ExtendEntryName => if m.cur is Some {
            ScanModel {
                cur: Some(EntryModel { name: m.cur->0.name.push(c), ..m.cur->0 }),
                ..m
            }
        } else {
            m
        },
        Action::BeginAttrKey => ScanModel { key: Some(seq![c]), ..m },
        Action::ExtendAttrKey => if m.key is Some {
            ScanModel { key: Some(m.key->0.push(c)), ..m }
        } else {
            m
        },
        Action::EndAttrKey => m,
        Action::BeginAttrValue => ScanModel { val: Some(seq![c]), ..m },
        Action::ExtendAttrValue => if m.val is Some {
            ScanModel { val: Some(m.val->0.push(c)), ..m }
        } else {
            m
        },
        Action::CommitAttrValue => if m.cur is Some && m.key is Some && m.val is Some {
            ScanModel {
                cur: Some(
                    EntryModel {
                        attrs: m.cur->0.attrs.insert(m.key->0, m.val->0),
                        ..m.cur->0
                    },
                ),
                ..m
            }
        } else {
            m
        },
        Action::BeginInlineAttr => ScanModel { key: Some("score"@), val: Some(seq![c]), ..m },
    }
}

/// Validity of the context: every attribute map it holds is valid.
pub open spec fn parser_wf(p: Parser) -> bool {
    &&& match p.current_word {
        Some(w) => w.attributes.wf(),
        None => true,
    }
    &&& forall|i: int|
        0 <= i < p.parsed_words@.len() ==> (#[trigger] p.parsed_words@[i]).attributes.wf()
}

impl Parser {
    /// Creates the context a scan starts from.
    pub fn new() -> (p: Parser)
        ensures
            p@ == init_model(),
            parser_wf(p),
    {
        let p = Parser {
            state: State::LineStart,
            current_word: None,
            current_var_key: None,
            current_var_value: None,
            parsed_words: Vec::new(),
        };
        proof {
            assert(p@ =~= init_model());
        }
        p
    }

    /// Does nothing: the matched rule only moves the state.
    pub fn skip(&mut self)
        ensures
            *final(self) == *old(self),
            parser_wf(*old(self)) ==> parser_wf(*final(self)),
    {
    }

    /// Commits the open entry, if any, then opens a new one named by the
    /// current character.
    pub fn start_word(&mut self, c: char)
        requires
            parser_wf(*old(self)),
        ensures
            parser_wf(*final(self)),
            final(self)@ == apply_action(old(self)@, Action::BeginEntry, c),
            final(self).state == old(self).state,
    {
        let committed = self.current_word.take();
        if let Some(w) = committed {
            self.parsed_words.push(w);
        }
        let mut name = String::new();
        push_char(&mut name, c);
        self.current_word = Some(Entry { name, attributes: AttrMap::new() });
        proof {
            assert(entries_view(old(self).parsed_words@.push(old(self).current_word->0))
                =~= entries_view(old(self).parsed_words@).push(old(self).current_word->0@));
            assert(self@ =~= apply_action(old(self)@, Action::BeginEntry, c));
        }
    }

    /// Appends the current character to the open entry's name.
    pub fn add_char_to_word(&mut self, c: char)
        ensures
            final(self)@ == apply_action(old(self)@, Action::ExtendEntryName, c),
            *final(self) == (Parser { current_word: final(self).current_word, ..*old(self) }),
            parser_wf(*old(self)) ==> parser_wf(*final(self)),
    {
        match &mut self.current_word {
            Some(w) => push_char(&mut w.name, c),
            None => (),
        }
        proof {
            assert(self@ =~= apply_action(old(self)@, Action::ExtendEntryName, c));
        }
    }

    /// Commits the open entry, if any, into the output; afterwards no entry
    /// is open. The external driver calls this once, when the stream ends.
    pub fn end_word(&mut self)
        requires
            parser_wf(*old(self)),
        ensures
            parser_wf(*final(self)),
            final(self)@ == (ScanModel {
                cur: None,
                out: spec_flush(old(self)@),
                ..old(self)@
            }),
    {
        let committed = self.current_word.take();
        if let Some(w) = committed {
            self.parsed_words.push(w);
            proof {
                assert(entries_view(old(self).parsed_words@.push(old(self).current_word->0))
                    =~= entries_view(old(self).parsed_words@).push(old(self).current_word->0@));
            }
        }
        proof {
            assert(self@ =~= ScanModel { cur: None, out: spec_flush(old(self)@), ..old(self)@ });
        }
    }

    /// Starts an attribute key with the current character.
    pub fn start_variable_key(&mut self, c: char)
        ensures
            final(self)@ == apply_action(old(self)@, Action::BeginAttrKey, c),
            *final(self) == (Parser { current_var_key: final(self).current_var_key, ..*old(self) }),
            parser_wf(*old(self)) ==> parser_wf(*final(self)),
    {
        let mut key = String::new();
        push_char(&mut key, c);
        self.current_var_key = Some(key);
        proof {
            assert(self@ =~= apply_action(old(self)@, Action::BeginAttrKey, c));
        }
    }

    /// Appends the current character to the attribute key under construction.
    pub fn add_char_to_variable_key(&mut self, c: char)
        ensures
            final(self)@ == apply_action(old(self)@, Action::ExtendAttrKey, c),
            *final(self) == (Parser { current_var_key: final(self).current_var_key, ..*old(self) }),
            parser_wf(*old(self)) ==> parser_wf(*final(self)),
    {
        match &mut self.current_var_key {
            Some(k) => push_char(k, c),
            None => (),
        }
        proof {
            assert(self@ =~= apply_action(old(self)@, Action::ExtendAttrKey, c));
        }
    }

    /// Observation point at the end of an attribute key; the context is left
    /// unchanged.
    pub fn end_variable_key(&mut self)
        ensures
            *final(self) == *old(self),
            parser_wf(*old(self)) ==> parser_wf(*final(self)),
    {
    }

    /// Sets the pending key to the fixed literal `score` and starts the
    /// pending value with the current character: the inline attribute form.
    pub fn start_inline_variable(&mut self, c: char)
        ensures
            final(self)@ == apply_action(old(self)@, Action::BeginInlineAttr, c),
            *final(self) == (Parser {
                current_var_key: final(self).current_var_key,
                current_var_value: final(self).current_var_value,
                ..*old(self)
            }),
            parser_wf(*old(self)) ==> parser_wf(*final(self)),
    {
        self.current_var_key = Some(String::from_str("score"));
        let mut value = String::new();
        push_char(&mut value, c);
        self.current_var_value = Some(value);
        proof {
            assert(self@ =~= apply_action(old(self)@, Action::BeginInlineAttr, c));
        }
    }

    /// Starts an attribute value with the current character.
    pub fn start_variable_value(&mut self, c: char)
        ensures
            final(self)@ == apply_action(old(self)@, Action::BeginAttrValue, c),
            *final(self) == (Parser {
                current_var_value: final(self).current_var_value,
                ..*old(self)
            }),
            parser_wf(*old(self)) ==> parser_wf(*final(self)),
    {
        let mut value = String::new();
        push_char(&mut value, c);
        self.current_var_value = Some(value);
        proof {
            assert(self@ =~= apply_action(old(self)@, Action::BeginAttrValue, c));
        }
    }

    /// Appends the current character to the attribute value under
    /// construction. Blanks are appended like any other accepted character:
    /// no trimming is performed.
    pub fn add_char_to_variable_value(&mut self, c: char)
        ensures
            final(self)@ == apply_action(old(self)@, Action::ExtendAttrValue, c),
            *final(self) == (Parser {
                current_var_value: final(self).current_var_value,
                ..*old(self)
            }),
            parser_wf(*old(self)) ==> parser_wf(*final(self)),
    {
        match &mut self.current_var_value {
            Some(v) => push_char(v, c),
            None => (),
        }
        proof {
            assert(self@ =~= apply_action(old(self)@, Action::ExtendAttrValue, c));
        }
    }

    /// Commits the pending key/value pair into the open entry's attribute
    /// map, overwriting any existing value of that key. With no open entry or
    /// no complete pending pair, the context is left unchanged and the pair is
    /// not attached anywhere.
    pub fn end_variable_value(&mut self)
        requires
            parser_wf(*old(self)),
        ensures
            parser_wf(*final(self)),
            final(self)@ == apply_action(old(self)@, Action::CommitAttrValue, ' '),
    {
        if self.current_word.is_some() && self.current_var_key.is_some()
            && self.current_var_value.is_some() {
            let key = self.current_var_key.as_ref().unwrap().clone();
            let value = self.current_var_value.as_ref().unwrap().clone();
            match &mut self.current_word {
                Some(w) => w.attributes.insert(key, value),
                None => (),
            }
        }
        proof {
            assert(self@ =~= apply_action(old(self)@, Action::CommitAttrValue, ' '));
        }
    }

    /// The single interpreter switch: runs one action on the context.
    pub fn apply(&mut self, a: Action, c: char)
        requires
            parser_wf(*old(self)),
        ensures
            parser_wf(*final(self)),
            final(self)@ == apply_action(old(self)@, a, c),
            final(self).state == old(self).state,
    {
        match a {
            Action::Noop => self.skip(),
            Action::BeginEntry => self.start_word(c),
            Action::ExtendEntryName => self.add_char_to_word(c),
            Action::BeginAttrKey => self.start_variable_key(c),
            Action::ExtendAttrKey => self.add_char_to_variable_key(c),
            Action::EndAttrKey => self.end_variable_key(),
            Action::BeginAttrValue => self.start_variable_value(c),
            Action::ExtendAttrValue => self.add_char_to_variable_value(c),
            Action::CommitAttrValue => self.end_variable_value(),
            Action::BeginInlineAttr => self.start_inline_variable(c),
        }
    }
}

/// What end of stream yields: the output so far, with the open entry, if
/// any, committed after it.
pub open spec fn spec_flush(m: ScanModel) -> Seq<EntryModel> {
    if m.cur is Some {
        m.out.push(m.cur->0)
    } else {
        m.out
    }
}

} // verus!
