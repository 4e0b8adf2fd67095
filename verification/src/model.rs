//! The interactive core in one value: the committed collection, the dialog
//! lifecycle, and the palette cursor. Renderer events (open, edit, save,
//! delete, adjust, field changes) are methods; each says exactly how the
//! state after relates to the state before. In-dialog edits touch only the
//! draft: the committed collection is untouched until an explicit save.

use vstd::prelude::*;
use crate::dialog::{CounterDraft, DialogState};
use crate::palette::{advance_cursor, palette_color, spec_advance, spec_palette, PALETTE_LEN};
use crate::state::{
    adjust_fits, adjusted, has_id, removed, spec_find, unique_ids, upserted, Counter, Store,
};
use crate::text::{parse_i32, spec_decimal, spec_parse_i32, trimmed_of};

verus! {

/// Relies on uuid::Uuid::new_v4 and the hyphenated lowercase `Display` form
/// of a UUID: a freshly generated random identifier, rendered as 36
/// characters. Nothing further is assumed of the value.
#[verifier::external_body]
fn mint_id() -> (r: String)
    ensures
        r@.len() == 36,
{
    uuid::Uuid::new_v4().to_string()
}

/// The score after a numeric input: the parsed value, or the previous valid
/// value when the text does not parse as a signed 32-bit integer.
pub open spec fn spec_score_input(prev: i32, text: Seq<char>) -> i32 {
    match spec_parse_i32(text) {
        Some(v) => v as i32,
        None => prev,
    }
}

/// The whole interactive core: committed collection, dialog state, palette
/// cursor.
pub struct AppModel {
    pub store: Store,
    pub dialog: DialogState,
    pub palette_cursor: usize,
}

impl AppModel {
    /// Well-formed: the cursor is a palette position, the collection has no
    /// duplicate ids, an add draft has no id yet, and an edit draft has one.
    pub open spec fn wf(self) -> bool {
        &&& self.palette_cursor < PALETTE_LEN
        &&& unique_ids(self.store.counters@)
        &&& match self.dialog {
            DialogState::Closed => true,
            DialogState::Add(d) => d.id is None,
            DialogState::Edit(d) => d.id is Some,
        }
    }

    /// The initial state: empty collection, closed dialog, cursor at the
    /// first palette entry.
    pub fn new() -> (r: Self)
        ensures
            r.store.counters@ =~= Seq::<Counter>::empty(),
            r.dialog == DialogState::Closed,
            r.palette_cursor == 0,
            r.wf(),
    {
        AppModel { store: Store::default(), dialog: DialogState::Closed, palette_cursor: 0 }
    }

    /// A collection hydrated from storage, dialog closed, cursor at the
    /// start.
    pub fn with_store(store: Store) -> (r: Self)
        requires
            unique_ids(store.counters@),
        ensures
            r.store == store,
            r.dialog == DialogState::Closed,
            r.palette_cursor == 0,
            r.wf(),
    {
        AppModel { store, dialog: DialogState::Closed, palette_cursor: 0 }
    }

    /// Opens the add dialog: a fresh draft named after the row count, score
    /// zero, the palette entry at the cursor as default color, no id yet.
    /// Collection and cursor are untouched.
    pub fn open_add(&mut self)
        requires
            old(self).wf(),
            old(self).store.counters@.len() < usize::MAX,
        ensures
            final(self).store == old(self).store,
            final(self).palette_cursor == old(self).palette_cursor,
            final(self).dialog matches DialogState::Add(d) && d.id is None && d.score == 0
                && d.name@ == "Player "@ + spec_decimal((old(self).store.counters@.len() + 1) as nat)
                && d.color@ == spec_palette(old(self).palette_cursor as int),
            final(self).wf(),
    {
        let total = self.store.counters.len();
        let color = palette_color(self.palette_cursor);
        proof {
            vstd::arithmetic::div_mod::lemma_small_mod(
                self.palette_cursor as nat,
                PALETTE_LEN as nat,
            );
        }
        self.dialog = DialogState::Add(CounterDraft::new(color, total));
    }

    /// Opens the edit dialog on the counter with the given id, its fields
    /// copied into the draft; does nothing if no counter has the id.
    /// Collection and cursor are untouched.
    pub fn open_edit(&mut self, id: &str)
        requires
            old(self).wf(),
        ensures
            final(self).store == old(self).store,
            final(self).palette_cursor == old(self).palette_cursor,
            match spec_find(old(self).store.counters@, id@) {
                Some(c) => final(self).dialog matches DialogState::Edit(d) && d.id == Some(c.id)
                    && d.name == c.name && d.score == c.score && d.color == c.color,
                None => final(self).dialog == old(self).dialog,
            },
            final(self).wf(),
    {
        let found = self.store.find(id);
        match found {
            Some(counter) => {
                let draft = CounterDraft::from_counter(counter);
                self.dialog = DialogState::Edit(draft);
            },
            None => {},
        }
    }

    /// Closes the dialog, discarding the draft: the committed collection is
    /// left exactly as it was, whatever was edited in the dialog, and the
    /// cursor does not move.
    pub fn close_dialog(&mut self)
        ensures
            final(self).store == old(self).store,
            final(self).palette_cursor == old(self).palette_cursor,
            final(self).dialog == DialogState::Closed,
            old(self).wf() ==> final(self).wf(),
    {
        self.dialog = DialogState::Closed;
    }

    /// Edits the draft's name. Only the draft changes; a closed dialog
    /// ignores the event.
    pub fn set_draft_name(&mut self, name: String)
        ensures
            final(self).store == old(self).store,
            final(self).palette_cursor == old(self).palette_cursor,
            match old(self).dialog {
                DialogState::Closed => final(self).dialog == old(self).dialog,
                DialogState::Add(d) => final(self).dialog == DialogState::Add(
                    CounterDraft { name: name, ..d },
                ),
                DialogState::Edit(d) => final(self).dialog == DialogState::Edit(
                    CounterDraft { name: name, ..d },
                ),
            },
            old(self).wf() ==> final(self).wf(),
    {
        match &self.dialog {
            DialogState::Closed => {},
            DialogState::Add(d) => {
                let mut draft = d.clone();
                draft.name = name;
                self.dialog = DialogState::Add(draft);
            },
            DialogState::Edit(d) => {
                let mut draft = d.clone();
                draft.name = name;
                self.dialog = DialogState::Edit(draft);
            },
        }
    }

    /// Edits the draft's color, from a palette swatch or a free-form picker.
    /// Only the draft changes; a closed dialog ignores the event.
    pub fn set_draft_color(&mut self, color: String)
        ensures
            final(self).store == old(self).store,
            final(self).palette_cursor == old(self).palette_cursor,
            match old(self).dialog {
                DialogState::Closed => final(self).dialog == old(self).dialog,
                DialogState::Add(d) => final(self).dialog == DialogState::Add(
                    CounterDraft { color: color, ..d },
                ),
                DialogState::Edit(d) => final(self).dialog == DialogState::Edit(
                    CounterDraft { color: color, ..d },
                ),
            },
            old(self).wf() ==> final(self).wf(),
    {
        match &self.dialog {
            DialogState::Closed => {},
            DialogState::Add(d) => {
                let mut draft = d.clone();
                draft.color = color;
                self.dialog = DialogState::Add(draft);
            },
            DialogState::Edit(d) => {
                let mut draft = d.clone();
                draft.color = color;
                self.dialog = DialogState::Edit(draft);
            },
        }
    }

    /// Feeds the numeric input's text into the draft's score: an unparsable
    /// text is ignored and the previous valid value retained. Only the draft
    /// changes; a closed dialog ignores the event.
    pub fn set_draft_score_text(&mut self, text: &str)
        ensures
            final(self).store == old(self).store,
            final(self).palette_cursor == old(self).palette_cursor,
            match old(self).dialog {
                DialogState::Closed => final(self).dialog == old(self).dialog,
                DialogState::Add(d) => final(self).dialog == DialogState::Add(
                    CounterDraft { score: spec_score_input(d.score, text@), ..d },
                ),
                DialogState::Edit(d) => final(self).dialog == DialogState::Edit(
                    CounterDraft { score: spec_score_input(d.score, text@), ..d },
                ),
            },
            old(self).wf() ==> final(self).wf(),
    {
        match &self.dialog {
            DialogState::Closed => {},
            DialogState::Add(d) => {
                let mut draft = d.clone();
                if let Some(v) = parse_i32(text) {
                    draft.score = v;
                }
                self.dialog = DialogState::Add(draft);
            },
            DialogState::Edit(d) => {
                let mut draft = d.clone();
                if let Some(v) = parse_i32(text) {
                    draft.score = v;
                }
                self.dialog = DialogState::Edit(draft);
            },
        }
    }

    /// Saves the open dialog's draft with the given freshly minted id: the
    /// draft is materialized (name trimmed; the draft's own id reused when
    /// editing) and upserted, the dialog closes, and the cursor advances
    /// exactly when the save created a new counter.
    pub fn save_draft_with_id(&mut self, fresh_id: String)
        requires
            old(self).wf(),
            !(old(self).dialog is Closed),
        ensures
            final(self).dialog == DialogState::Closed,
            final(self).wf(),
            match old(self).dialog {
                DialogState::Add(d) => {
                    &&& final(self).palette_cursor as nat == spec_advance(
                        old(self).palette_cursor as nat,
                    )
                    &&& exists|c: Counter|
                        #![trigger upserted(old(self).store.counters@, c)]
                        {
                            &&& c.id == fresh_id
                            &&& c.name@ == trimmed_of(d.name@)
                            &&& c.score == d.score
                            &&& c.color == d.color
                            &&& final(self).store.counters@ == upserted(
                                old(self).store.counters@,
                                c,
                            )
                            &&& !has_id(old(self).store.counters@, c.id@)
                                ==> final(self).store.counters@ == old(
                                self,
                            ).store.counters@.push(c)
                        }
                },
                DialogState::Edit(d) => {
                    &&& final(self).palette_cursor == old(self).palette_cursor
                    &&& exists|c: Counter|
                        #![trigger upserted(old(self).store.counters@, c)]
                        {
                            &&& Some(c.id) == d.id
                            &&& c.name@ == trimmed_of(d.name@)
                            &&& c.score == d.score
                            &&& c.color == d.color
                            &&& final(self).store.counters@ == upserted(
                                old(self).store.counters@,
                                c,
                            )
                        }
                },
                DialogState::Closed => false,
            },
    {
        let (draft, is_new) = match &self.dialog {
            DialogState::Add(d) => (d.clone(), true),
            DialogState::Edit(d) => (d.clone(), false),
            DialogState::Closed => {
                proof {
                    assert(false);
                }
                (CounterDraft { id: None, name: String::new(), score: 0, color: String::new() },
                false)
            },
        };
        let counter = draft.into_counter(fresh_id);
        let ghost committed = counter;
        self.store.upsert(counter);
        if is_new {
            self.palette_cursor = advance_cursor(self.palette_cursor);
        }
        self.dialog = DialogState::Closed;
        proof {
            assert(final(self).store.counters@ == upserted(
                old(self).store.counters@,
                committed,
            ));
            crate::state::lemma_upsert_keeps_unique_ids(old(self).store.counters@, committed);
        }
    }

    /// Saves the open dialog's draft, minting a fresh identifier for a new
    /// counter; an edited counter keeps its id. The dialog closes and the
    /// cursor advances exactly when the save created a new counter.
    pub fn save_draft(&mut self)
        requires
            old(self).wf(),
            !(old(self).dialog is Closed),
        ensures
            final(self).dialog == DialogState::Closed,
            final(self).wf(),
            match old(self).dialog {
                DialogState::Add(d) => {
                    &&& final(self).palette_cursor as nat == spec_advance(
                        old(self).palette_cursor as nat,
                    )
                    &&& exists|c: Counter|
                        #![trigger upserted(old(self).store.counters@, c)]
                        {
                            &&& c.id@.len() == 36
                            &&& c.name@ == trimmed_of(d.name@)
                            &&& c.score == d.score
                            &&& c.color == d.color
                            &&& final(self).store.counters@ == upserted(
                                old(self).store.counters@,
                                c,
                            )
                            &&& !has_id(old(self).store.counters@, c.id@)
                                ==> final(self).store.counters@ == old(
                                self,
                            ).store.counters@.push(c)
                        }
                },
                DialogState::Edit(d) => {
                    &&& final(self).palette_cursor == old(self).palette_cursor
                    &&& exists|c: Counter|
                        #![trigger upserted(old(self).store.counters@, c)]
                        {
                            &&& Some(c.id) == d.id
                            &&& c.name@ == trimmed_of(d.name@)
                            &&& c.score == d.score
                            &&& c.color == d.color
                            &&& final(self).store.counters@ == upserted(
                                old(self).store.counters@,
                                c,
                            )
                        }
                },
                DialogState::Closed => false,
            },
    {
        let fresh = mint_id();
        let ghost fresh_view = fresh@;
        self.save_draft_with_id(fresh);
        proof {
            if old(self).dialog is Add {
                let d = old(self).dialog->Add_0;
                let c = choose|c: Counter|
                    #![trigger upserted(old(self).store.counters@, c)]
                    {
                        &&& c.id@ == fresh_view
                        &&& c.name@ == trimmed_of(d.name@)
                        &&& c.score == d.score
                        &&& c.color == d.color
                        &&& final(self).store.counters@ == upserted(old(self).store.counters@, c)
                        &&& !has_id(old(self).store.counters@, c.id@)
                            ==> final(self).store.counters@ == old(self).store.counters@.push(c)
                    };
                assert(c.id@.len() == 36);
            }
        }
    }

    /// Deletes the counter being edited: removes it from the collection,
    /// discards the draft and closes. The cursor does not move.
    pub fn delete_current(&mut self)
        requires
            old(self).wf(),
            old(self).dialog is Edit,
        ensures
            final(self).dialog == DialogState::Closed,
            final(self).palette_cursor == old(self).palette_cursor,
            final(self).wf(),
            match old(self).dialog {
                DialogState::Edit(d) => final(self).store.counters@ == removed(
                    old(self).store.counters@,
                    d.id.unwrap()@,
                ),
                _ => false,
            },
    {
        let id = match &self.dialog {
            DialogState::Edit(d) => match &d.id {
                Some(existing) => existing.clone(),
                None => {
                    proof {
                        assert(false);
                    }
                    String::new()
                },
            },
            _ => {
                proof {
                    assert(false);
                }
                String::new()
            },
        };
        self.store.remove(id.as_str());
        self.dialog = DialogState::Closed;
    }

    /// Deletes the counter with the given id (an absent id is a no-op) and
    /// closes any open dialog. The cursor does not move.
    pub fn delete_counter(&mut self, id: &str)
        ensures
            final(self).store.counters@ == removed(old(self).store.counters@, id@),
            final(self).dialog == DialogState::Closed,
            final(self).palette_cursor == old(self).palette_cursor,
            old(self).wf() ==> final(self).wf(),
    {
        self.store.remove(id);
        self.dialog = DialogState::Closed;
    }

    /// Adds a press-classified delta to the counter with the given id,
    /// returning the new score; an absent id returns `None` and changes
    /// nothing. Dialog and cursor are untouched.
    pub fn adjust_counter(&mut self, id: &str, delta: i32) -> (r: Option<i32>)
        requires
            adjust_fits(old(self).store.counters@, id@, delta as int),
        ensures
            final(self).store.counters@ == adjusted(old(self).store.counters@, id@, delta as int),
            match spec_find(old(self).store.counters@, id@) {
                Some(c) => r == Some((c.score + delta) as i32),
                None => r is None && final(self).store.counters@ == old(self).store.counters@,
            },
            final(self).dialog == old(self).dialog,
            final(self).palette_cursor == old(self).palette_cursor,
            old(self).wf() ==> final(self).wf(),
    {
        self.store.adjust_score(id, delta)
    }
}

} // verus!
