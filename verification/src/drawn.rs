//! The browser together with what its rows keep from one drawing to the next.

use crate::action::{EditorEvent, Effects, ServerFileBrowserAction};
use crate::browser::ServerFileBrowserView;
use crate::entry::ServerFileBrowserEntry;
use crate::listing::ResolvedRemotePath;
use crate::model::{listing_view, resolved_view, transfer_view, Browser};
use crate::panel::{paths_of, row_for, states_synced, Row, RowStates};
use crate::status::Status;
use crate::text::opt_text;
use vstd::prelude::*;

verus! {

/// The browser, with a state for each of its rows.
#[verifier::reject_recursive_types(S)]
pub struct DrawnBrowser<S> {
    browser: ServerFileBrowserView,
    row_states: RowStates<S>,
}

/// What a drawn browser holds.
#[verifier::reject_recursive_types(S)]
pub struct Drawn<S> {
    pub browser: Browser,
    /// The states of the rows, by path.
    pub states: Map<Seq<char>, S>,
}

impl<S> View for DrawnBrowser<S> {
    type V = Drawn<S>;

    closed spec fn view(&self) -> Drawn<S> {
        Drawn { browser: self.browser@, states: self.row_states@ }
    }
}

impl<S> Drawn<S> {
    /// What holds at all times: what holds of the browser, and that just the rows have a state.
    pub open spec fn wf(self) -> bool {
        &&& self.browser.wf()
        &&& self.states.dom() == paths_of(self.browser.entries)
    }
}

impl<S: Default> Drawn<S> {
    /// Whether this becomes `after`, with `effects`, where the browser takes the step `step`: a row
    /// that stays keeps its state, unless everything is shown anew, and any other row gets a new
    /// one.
    pub open spec fn becomes(
        self,
        after: Drawn<S>,
        effects: Effects<Seq<char>>,
        step: (Browser, Effects<Seq<char>>),
    ) -> bool {
        &&& (after.browser, effects) == step
        &&& states_synced(
            if effects.reset_scroll {
                Map::empty()
            } else {
                self.states
            },
            after.browser.entries,
            after.states,
        )
    }
}

impl<S> DrawnBrowser<S> {
    /// What holds at all times: just the rows have a state.
    pub open spec fn wf(&self) -> bool {
        self@.wf() && self.states_are_known()
    }

    /// Whether the paths that have a state are known.
    pub closed spec fn states_are_known(&self) -> bool {
        self.row_states.wf()
    }

    /// A browser that shows nothing yet.
    pub fn new() -> (drawn: Self)
        ensures
            drawn.wf(),
            drawn@ == (Drawn { browser: Browser::start(), states: Map::<Seq<char>, S>::empty() }),
    {
        let drawn = DrawnBrowser {
            browser: ServerFileBrowserView::new(),
            row_states: RowStates::new(),
        };
        assert(drawn@.states.dom() =~= paths_of(drawn@.browser.entries));
        drawn
    }

    /// The browser.
    pub fn browser(&self) -> (browser: &ServerFileBrowserView)
        ensures
            browser@ == self@.browser,
    {
        &self.browser
    }

    /// The row `index` as it is drawn, with its state, if there is such a row. The text `modified`
    /// says that the time of the last change is known.
    pub fn row(&self, index: usize, modified: &str) -> (row: Option<(Row<String>, &S)>)
        requires
            self.wf(),
        ensures
            match row {
                Some((row, state)) => {
                    let entries = self@.browser.entries;
                    &&& index < entries.len()
                    &&& row@ == row_for(
                        entries[index as int],
                        self@.browser.selected == Some(index),
                        self@.browser.expanded.contains(entries[index as int].path@),
                        modified@,
                    )
                    &&& *state == self@.states[entries[index as int].path@]
                },
                None => index >= self@.browser.entries.len(),
            },
    {
        let row: Row<String> = match self.browser.row(index, modified) {
            Some(row) => row,
            None => {
                return None;
            },
        };
        assert(paths_of(self@.browser.entries).contains(
            self@.browser.entries[index as int].path@,
        ));
        match self.row_states.get(self.browser.entries()[index].path.as_str()) {
            Some(state) => Some((row, state)),
            None => None,
        }
    }
}

impl<S: Default> DrawnBrowser<S> {
    /// Brings the states in line with the rows after a step with `effects`.
    fn sync(&mut self, effects: &Effects<String>)
        requires
            old(self)@.browser.wf(),
            old(self).row_states.wf(),
        ensures
            final(self).wf(),
            final(self)@.browser == old(self)@.browser,
            states_synced(
                if effects@.reset_scroll {
                    Map::empty()
                } else {
                    old(self)@.states
                },
                final(self)@.browser.entries,
                final(self)@.states,
            ),
    {
        if effects.reset_scroll {
            self.row_states.clear();
        }
        self.row_states.sync(self.browser.entries());
    }

    /// Shows the directory `path` of a host, unless it is shown already.
    pub fn set_remote_root(
        &mut self,
        host_id: String,
        path: String,
        session: Option<u64>,
        connected: bool,
    ) -> (effects: Effects<String>)
        requires
            old(self).wf(),
        ensures
            final(self).wf(),
            old(self)@.becomes(
                final(self)@,
                effects@,
                old(self)@.browser.set_remote_root(host_id@, path@, session, connected),
            ),
    {
        let effects: Effects<String> = self.browser.set_remote_root(host_id, path, session, connected);
        self.sync(&effects);
        effects
    }

    /// The panel that holds the browser got the focus.
    pub fn on_left_panel_focused(&mut self) -> (effects: Effects<String>)
        requires
            old(self).wf(),
        ensures
            final(self).wf(),
            old(self)@.becomes(final(self)@, effects@, old(self)@.browser.focus_panel()),
    {
        let effects: Effects<String> = self.browser.on_left_panel_focused();
        self.sync(&effects);
        effects
    }

    /// The browser, or something in it, got the focus.
    pub fn on_focus(
        &mut self,
        is_self_focused: bool,
    ) -> (effects: Effects<String>)
        requires
            old(self).wf(),
        ensures
            final(self).wf(),
            old(self)@.becomes(final(self)@, effects@, old(self)@.browser.focus(is_self_focused)),
    {
        let effects: Effects<String> = self.browser.on_focus(is_self_focused);
        self.sync(&effects);
        effects
    }

    /// What happened in the field for paths.
    pub fn handle_editor_event(
        &mut self,
        event: EditorEvent,
        typed: &str,
        connected: bool,
    ) -> (effects: Effects<String>)
        requires
            old(self).wf(),
        ensures
            final(self).wf(),
            old(self)@.becomes(
                final(self)@,
                effects@,
                old(self)@.browser.edit(event, typed@, connected),
            ),
    {
        let effects: Effects<String> = self.browser.handle_editor_event(event, typed, connected);
        self.sync(&effects);
        effects
    }

    /// What happened in the context menu: it was closed, or something else.
    pub fn handle_menu_event(
        &mut self,
        closed: bool,
    ) -> (effects: Effects<String>)
        requires
            old(self).wf(),
        ensures
            final(self).wf(),
            old(self)@.becomes(final(self)@, effects@, old(self)@.browser.menu_event(closed)),
    {
        let effects: Effects<String> = self.browser.handle_menu_event(closed);
        self.sync(&effects);
        effects
    }

    /// Takes over what the remote host said about the current directory.
    pub fn finish_load(
        &mut self,
        listing: Result<(String, Vec<ServerFileBrowserEntry>), Status<String>>,
    ) -> (effects: Effects<String>)
        requires
            old(self).wf(),
        ensures
            final(self).wf(),
            old(self)@.becomes(
                final(self)@,
                effects@,
                old(self)@.browser.finish_load(listing_view(listing)),
            ),
    {
        let effects: Effects<String> = self.browser.finish_load(listing);
        self.sync(&effects);
        effects
    }

    /// Takes over what a path names.
    pub fn finish_resolve_and_open(
        &mut self,
        resolved: Result<ResolvedRemotePath, Status<String>>,
        host_id: Option<String>,
        connected: bool,
    ) -> (effects: Effects<String>)
        requires
            old(self).wf(),
        ensures
            final(self).wf(),
            old(self)@.becomes(
                final(self)@,
                effects@,
                old(self)@.browser.finish_resolve(
                    resolved_view(resolved),
                    opt_text(host_id),
                    connected,
                ),
            ),
    {
        let effects: Effects<String> = self.browser.finish_resolve_and_open(resolved, host_id, connected);
        self.sync(&effects);
        effects
    }

    /// Takes note of the outcome of a transfer.
    pub fn finish_transfer(
        &mut self,
        result: Result<(), Status<String>>,
        connected: bool,
    ) -> (effects: Effects<String>)
        requires
            old(self).wf(),
        ensures
            final(self).wf(),
            old(self)@.becomes(
                final(self)@,
                effects@,
                old(self)@.browser.finish_transfer(transfer_view(result), connected),
            ),
    {
        let effects: Effects<String> = self.browser.finish_transfer(result, connected);
        self.sync(&effects);
        effects
    }

    /// Does what the user asked for, if it can be done; otherwise nothing changes.
    pub fn try_handle_action(
        &mut self,
        action: ServerFileBrowserAction,
        connected: bool,
        typed: &str,
    ) -> (effects: Option<Effects<String>>)
        requires
            old(self).wf(),
        ensures
            final(self).wf(),
            match effects {
                Some(effects) => {
                    &&& old(self)@.browser.can_act(action@)
                    &&& old(self)@.becomes(
                        final(self)@,
                        effects@,
                        old(self)@.browser.act(action@, connected, typed@),
                    )
                },
                None => !old(self)@.browser.can_act(action@) && final(self)@ == old(self)@,
            },
    {
        let effects: Option<Effects<String>> = self.browser.try_handle_action(action, connected, typed);
        if let Some(effects) = &effects {
            self.sync(effects);
        }
        effects
    }

    /// Takes over what the remote host said about a directory that was expanded, if no directory is
    /// then shown below itself; otherwise nothing changes.
    pub fn try_finish_toggle(
        &mut self,
        listing: Result<(String, Vec<ServerFileBrowserEntry>), Status<String>>,
        depth: usize,
    ) -> (effects: Option<Effects<String>>)
        requires
            old(self).wf(),
            depth > 0,
        ensures
            final(self).wf(),
            match effects {
                Some(effects) => {
                    &&& old(self)@.browser.can_finish_toggle(listing_view(listing), depth)
                    &&& old(self)@.becomes(
                        final(self)@,
                        effects@,
                        old(self)@.browser.finish_toggle(listing_view(listing), depth),
                    )
                },
                None => {
                    &&& !old(self)@.browser.can_finish_toggle(listing_view(listing), depth)
                    &&& final(self)@ == old(self)@
                },
            },
    {
        let effects: Option<Effects<String>> = self.browser.try_finish_toggle(listing, depth);
        if let Some(effects) = &effects {
            self.sync(effects);
        }
        effects
    }
}

/// While the rows stay, and are not shown anew, so do their states.
pub proof fn states_stay_with_their_rows<S: Default>(
    before: Drawn<S>,
    after: Drawn<S>,
    effects: Effects<Seq<char>>,
    step: (Browser, Effects<Seq<char>>),
)
    requires
        before.wf(),
        before.becomes(after, effects, step),
        !effects.reset_scroll,
        after.browser.entries == before.browser.entries,
    ensures
        after.states == before.states,
{
    assert(after.states =~= before.states);
}

/// Whatever step the browser takes, every row that is drawn afterwards has a state, and nothing
/// else has one.
pub proof fn just_the_rows_have_a_state<S: Default>(
    before: Drawn<S>,
    after: Drawn<S>,
    effects: Effects<Seq<char>>,
    step: (Browser, Effects<Seq<char>>),
    path: Seq<char>,
)
    requires
        before.becomes(after, effects, step),
    ensures
        after.states.contains_key(path) <==> exists|i: int|
            0 <= i < after.browser.entries.len() && (#[trigger] after.browser.entries[i]).path@
                == path,
{
    assert(paths_of(after.browser.entries).contains(path) <==> after.states.contains_key(path));
}

/// A step of what is drawn is that step of the browser, with its effects. A row that stays keeps its
/// state unless the list is shown from its start, and any other row has a new one.
pub proof fn drawing_follows_the_browser<S: Default>(
    before: Drawn<S>,
    after: Drawn<S>,
    effects: Effects<Seq<char>>,
    step: (Browser, Effects<Seq<char>>),
    path: Seq<char>,
)
    requires
        before.becomes(after, effects, step),
    ensures
        after.browser == step.0,
        effects == step.1,
        after.states.contains_key(path) && before.states.contains_key(path)
            && !effects.reset_scroll ==> after.states[path] == before.states[path],
        after.states.contains_key(path) && (effects.reset_scroll || !before.states.contains_key(
            path,
        )) ==> call_ensures(S::default, (), after.states[path]),
{
}

} // verus!
