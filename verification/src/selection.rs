//! The selection state machine: the live query, the full and filtered
//! entry lists, the cursor, and the terminal outcome of the session.
//!
//! Every transition is synchronous; the surrounding render/input loop
//! only dispatches one event at a time and draws the current state.

use vstd::prelude::*;

use crate::entries::Entry;
use crate::entries::models_of;
use crate::entries::sort_by_modified;
use crate::entries::sort_entries_by_modified;
use crate::filter::filter_entries;
use crate::filter::filter_model;
use crate::text::push_char;

verus! {

/// In any well-formed session whose query is empty — at the start, or
/// after backspacing the query away — the filtered list is the full
/// entry list again, exactly as stored: in modification-time order,
/// nothing dropped, nothing rescored.
pub proof fn lemma_empty_query_restores_all(app: App)
    requires
        app.wf(),
        app.query@.len() == 0,
    ensures
        models_of(app.filtered_entries@) == models_of(app.all_entries@),
{
}

/// One keyboard event, as the render/input loop hands it over.
pub enum InputEvent {
    /// A printable character was typed.
    Character(char),
    /// Remove the last character of the query (no-op when empty).
    Backspace,
    /// Move the cursor one entry up.
    CursorUp,
    /// Move the cursor one entry down.
    CursorDown,
    /// Accept the current selection (or the typed query).
    Confirm,
    /// Abandon the session.
    Abort,
}

/// The live state of one interactive selection session.
pub struct App {
    /// What the user typed so far.
    pub query: String,
    /// Every directory found by the loader, most recently modified first.
    pub all_entries: Vec<Entry>,
    /// The subset of `all_entries` matching `query`, best match first.
    pub filtered_entries: Vec<Entry>,
    /// Which item of `filtered_entries` is selected.
    pub selected_index: usize,
    /// Set once a terminal event arrived; the loop then exits.
    pub should_quit: bool,
    /// The chosen name, if any, for the name resolver.
    pub final_selection: Option<String>,
}

impl App {
    /// The cursor is clamped into `[0, len)`, and pinned to 0 on an empty
    /// list.
    pub open spec fn cursor_in_range(self) -> bool {
        if self.filtered_entries@.len() == 0 {
            self.selected_index == 0
        } else {
            self.selected_index < self.filtered_entries@.len()
        }
    }

    /// Well-formed session state: the filtered list is exactly one filter
    /// pass over the full list for the live query, the cursor is clamped,
    /// and no outcome exists before the session finishes.
    pub open spec fn wf(self) -> bool {
        &&& models_of(self.filtered_entries@) == filter_model(
            models_of(self.all_entries@),
            self.query@,
        )
        &&& self.cursor_in_range()
        &&& (!self.should_quit ==> self.final_selection is None)
    }

    /// Start a session over a freshly loaded entry list: empty query,
    /// entries ordered most recently modified first, everything shown,
    /// cursor on the first entry.
    pub fn new(entries: Vec<Entry>) -> (r: App)
        ensures
            r.wf(),
            r.query@.len() == 0,
            models_of(r.all_entries@) == sort_by_modified(models_of(entries@)),
            models_of(r.filtered_entries@) == models_of(r.all_entries@),
            r.selected_index == 0,
            !r.should_quit,
            r.final_selection is None,
    {
        let sorted = sort_entries_by_modified(entries);
        let filtered = sorted.clone();
        proof {
            assert(models_of(filtered@) =~= models_of(sorted@));
        }
        App {
            query: String::new(),
            all_entries: sorted,
            filtered_entries: filtered,
            selected_index: 0,
            should_quit: false,
            final_selection: None,
        }
    }

    /// Recompute the filtered list from the full list and the live query,
    /// and reset the cursor to the top.
    pub fn update_search(&mut self)
        ensures
            final(self).query == old(self).query,
            final(self).all_entries == old(self).all_entries,
            final(self).should_quit == old(self).should_quit,
            final(self).final_selection == old(self).final_selection,
            models_of(final(self).filtered_entries@) == filter_model(
                models_of(old(self).all_entries@),
                old(self).query@,
            ),
            final(self).selected_index == 0,
    {
        let filtered = filter_entries(&self.all_entries, self.query.as_str());
        self.filtered_entries = filtered;
        self.selected_index = 0;
    }

    /// Dispatch one input event, as the transition table of the session
    /// prescribes. Always leaves the state well-formed; aborting always
    /// finishes the session with no outcome, whatever was typed or
    /// selected before.
    pub fn handle_event(&mut self, ev: InputEvent)
        requires
            old(self).wf(),
            !old(self).should_quit,
        ensures
            final(self).wf(),
            final(self).all_entries == old(self).all_entries,
            match ev {
                InputEvent::Character(c) => {
                    &&& final(self).query@ == old(self).query@.push(c)
                    &&& models_of(final(self).filtered_entries@) == filter_model(
                        models_of(old(self).all_entries@),
                        final(self).query@,
                    )
                    &&& final(self).selected_index == 0
                    &&& !final(self).should_quit
                    &&& final(self).final_selection is None
                },
                InputEvent::Backspace => {
                    &&& final(self).query@ == if old(self).query@.len() == 0 {
                        old(self).query@
                    } else {
                        old(self).query@.drop_last()
                    }
                    &&& models_of(final(self).filtered_entries@) == filter_model(
                        models_of(old(self).all_entries@),
                        final(self).query@,
                    )
                    &&& final(self).selected_index == 0
                    &&& !final(self).should_quit
                    &&& final(self).final_selection is None
                },
                InputEvent::CursorUp => {
                    &&& *final(self) == (App {
                        selected_index: if old(self).selected_index > 0 {
                            (old(self).selected_index - 1) as usize
                        } else {
                            0
                        },
                        ..*old(self)
                    })
                },
                InputEvent::CursorDown => {
                    &&& *final(self) == (App {
                        selected_index: if old(self).selected_index + 1
                            < old(self).filtered_entries@.len() {
                            (old(self).selected_index + 1) as usize
                        } else {
                            old(self).selected_index
                        },
                        ..*old(self)
                    })
                },
                InputEvent::Confirm => {
                    &&& final(self).should_quit
                    &&& final(self).query == old(self).query
                    &&& final(self).filtered_entries == old(self).filtered_entries
                    &&& final(self).selected_index == old(self).selected_index
                    &&& (old(self).filtered_entries@.len() > 0 ==> final(self).final_selection
                        is Some && final(self).final_selection->0@ == models_of(
                        old(self).filtered_entries@,
                    )[old(self).selected_index as int].name)
                    &&& (old(self).filtered_entries@.len() == 0 && old(self).query@.len() > 0
                        ==> final(self).final_selection is Some
                        && final(self).final_selection->0@ == old(self).query@)
                    &&& (old(self).filtered_entries@.len() == 0 && old(self).query@.len() == 0
                        ==> final(self).final_selection is None)
                },
                InputEvent::Abort => {
                    &&& final(self).should_quit
                    &&& final(self).final_selection is None
                    &&& final(self).query == old(self).query
                    &&& final(self).filtered_entries == old(self).filtered_entries
                    &&& final(self).selected_index == old(self).selected_index
                },
            },
    {
        match ev {
            InputEvent::Character(c) => {
                push_char(&mut self.query, c);
                self.update_search();
            },
            InputEvent::Backspace => {
                let n = self.query.as_str().unicode_len();
                if n > 0 {
                    let shortened = String::from_str(self.query.as_str().substring_char(0, n - 1));
                    proof {
                        assert(shortened@ =~= self.query@.drop_last());
                    }
                    self.query = shortened;
                }
                self.update_search();
            },
            InputEvent::CursorUp => {
                if self.selected_index > 0 {
                    self.selected_index = self.selected_index - 1;
                }
            },
            InputEvent::CursorDown => {
                if self.filtered_entries.len() > 0 && self.selected_index
                    < self.filtered_entries.len() - 1 {
                    self.selected_index = self.selected_index + 1;
                }
            },
            InputEvent::Confirm => {
                if self.filtered_entries.len() > 0 {
                    let name = self.filtered_entries[self.selected_index].name.clone();
                    self.final_selection = Some(name);
                } else if !self.query.as_str().is_empty() {
                    self.final_selection = Some(self.query.clone());
                }
                self.should_quit = true;
            },
            InputEvent::Abort => {
                self.should_quit = true;
            },
        }
    }
}

} // verus!
