//! The modal dialog's draft: an editable copy of a counter's fields, held
//! apart from the committed collection until an explicit save. A draft with
//! no id stands for a counter not yet in the collection; a draft with an id
//! edits the counter that has it.

use vstd::prelude::*;
use vstd::string::StringExecFns;
use crate::state::Counter;
use crate::text::{decimal_string, spec_decimal, trim_text, trimmed_of};

verus! {

/// An uncommitted, editable copy of a counter's fields.
#[derive(Debug, PartialEq, Eq)]
pub struct CounterDraft {
    pub id: Option<String>,
    pub name: String,
    pub score: i32,
    pub color: String,
}

impl Clone for CounterDraft {
    fn clone(&self) -> (res: Self)
        ensures
            res == *self,
    {
        CounterDraft {
            id: match &self.id {
                Some(id) => Some(id.clone()),
                None => None,
            },
            name: self.name.clone(),
            score: self.score,
            color: self.color.clone(),
        }
    }
}

/// The dialog lifecycle: closed, adding a new counter, or editing an
/// existing one, each open state holding its draft.
#[derive(Debug, PartialEq, Eq)]
pub enum DialogState {
    Closed,
    Add(CounterDraft),
    Edit(CounterDraft),
}

impl CounterDraft {
    /// The draft a fresh add dialog opens with: no id yet, score zero, the
    /// given default color, and the name "Player N" for the N-th row the
    /// collection would then hold.
    pub fn new(color: String, existing_total: usize) -> (r: Self)
        requires
            existing_total < usize::MAX,
        ensures
            r.id is None,
            r.name@ == "Player "@ + spec_decimal((existing_total + 1) as nat),
            r.score == 0,
            r.color == color,
    {
        let numbered = decimal_string(existing_total + 1);
        let name = String::from_str("Player ").concat(numbered.as_str());
        CounterDraft { id: None, name, score: 0, color }
    }

    /// The draft an edit dialog opens with: a copy of the committed
    /// counter's fields, id included.
    pub fn from_counter(counter: &Counter) -> (r: Self)
        ensures
            r.id == Some(counter.id),
            r.name == counter.name,
            r.score == counter.score,
            r.color == counter.color,
    {
        CounterDraft {
            id: Some(counter.id.clone()),
            name: counter.name.clone(),
            score: counter.score,
            color: counter.color.clone(),
        }
    }

    /// Materializes the draft into a counter on save: the draft's id if it
    /// has one, otherwise the freshly minted one; the name trimmed; score
    /// and color as edited.
    pub fn into_counter(self, fresh_id: String) -> (r: Counter)
        ensures
            r.id == match self.id {
                Some(id) => id,
                None => fresh_id,
            },
            r.name@ == trimmed_of(self.name@),
            r.score == self.score,
            r.color == self.color,
    {
        let id = match self.id {
            Some(id) => id,
            None => fresh_id,
        };
        let name = trim_text(self.name.as_str()).to_owned();
        Counter { id, name, score: self.score, color: self.color }
    }
}

} // verus!
