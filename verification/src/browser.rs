//! The browser.
//!
//! Each method says what is to be done about what happened. Work that it asks for is reported
//! back to the `finish` method that the work names.

use crate::action::{
    ActionView, EditorEvent, Effects, MenuEntry, MenuEntryView, Route, ServerFileBrowserAction,
    Work,
};
use crate::entry::{
    entries_with_depth, DirectoryListings, DirectorySet, FileSystemEntryKind,
    ServerFileBrowserEntry,
};
use crate::listing::ResolvedRemotePath;
use crate::model::{listing_view, menu_views, resolved_view, transfer_view, Browser};
use crate::panel::{contents_of, entry_row, row_for, Contents, Row};
use crate::paths::{remote_basename, remote_parent};
use crate::selection::{
    next_index, position, previous_index, row_of_is_first, selected_index_after_rebuild,
};
use crate::status::{opt_status, Message, Status};
use crate::text::{opt_str, opt_text, same_text, trim};
use crate::tree::{
    closed_rows, collapsing_keeps_ends, ends, listings_indented, rebuild_entries_from, roots,
    rows_end, rows_keep_roots, unlisted_directories_do_not_matter,
};
use pathfinder_geometry::vector::Vector2F;
use vstd::prelude::*;

verus! {

/// The browser.
pub struct ServerFileBrowserView {
    host_id: Option<String>,
    session: Option<u64>,
    current_path: String,
    entries: Vec<ServerFileBrowserEntry>,
    expanded_directories: DirectorySet,
    loaded_directories: DirectoryListings,
    selected_index: Option<usize>,
    loading: bool,
    status: Option<Status<String>>,
    context_menu: Vec<MenuEntry>,
    context_menu_position: Option<Vector2F>,
}

impl View for ServerFileBrowserView {
    type V = Browser;

    closed spec fn view(&self) -> Browser {
        Browser {
            host_id: opt_text(self.host_id),
            session: self.session,
            current_path: self.current_path@,
            entries: self.entries@,
            expanded: self.expanded_directories@,
            loaded: self.loaded_directories@,
            selected: self.selected_index,
            loading: self.loading,
            status: opt_status(self.status),
            menu: menu_views(self.context_menu@),
            menu_position: self.context_menu_position,
        }
    }
}

impl ServerFileBrowserView {
    /// A browser that shows nothing yet.
    pub fn new() -> (browser: Self)
        ensures
            browser@ == Browser::start(),
            browser@.wf(),
    {
        let browser = ServerFileBrowserView {
            host_id: None,
            session: None,
            current_path: String::new(),
            entries: Vec::new(),
            expanded_directories: DirectorySet::new(),
            loaded_directories: DirectoryListings::new(),
            selected_index: None,
            loading: false,
            status: Some(Status::Message(Message::Empty)),
            context_menu: Vec::new(),
            context_menu_position: None,
        };
        proof {
            reveal(Seq::filter);
            assert(browser@.menu =~= Seq::<MenuEntryView>::empty());
            assert(roots(browser@.entries) =~= Seq::<ServerFileBrowserEntry>::empty());
            closed_rows(roots(browser@.entries), browser@.expanded, browser@.loaded);
        }
        browser
    }

    fn has_client(&self, connected: bool) -> (reached: bool)
        ensures
            reached == self@.has_client(connected),
    {
        self.host_id.is_some() && connected
    }

    fn route(&self, connected: bool) -> (route: Option<Route>)
        ensures
            route == self@.route(connected),
    {
        if self.has_client(connected) {
            Some(Route::Client)
        } else {
            match self.session {
                Some(session) => Some(Route::Session(session)),
                None => None,
            }
        }
    }

    /// Shows an error.
    fn set_error(&mut self, message: Message) -> (effects: Effects<String>)
        requires
            old(self)@.wf(),
        ensures
            final(self)@.wf(),
            (final(self)@, effects@) == old(self)@.failed(message),
    {
        self.loading = false;
        self.status = Some(Status::Message(message));
        Effects::notify()
    }

    /// Lists the current directory, or the home directory where there is none, for
    /// `finish_load`.
    pub fn load_current_directory(&mut self, connected: bool) -> (effects: Effects<String>)
        requires
            old(self)@.wf(),
        ensures
            final(self)@.wf(),
            (final(self)@, effects@) == old(self)@.load(connected),
    {
        match self.route(connected) {
            Some(route) => {
                let path: String = if self.current_path.as_str().is_empty() {
                    "~".to_owned()
                } else {
                    self.current_path.clone()
                };
                self.loading = true;
                self.status = None;
                Effects::notify_and(Work::ListCurrent { route, path })
            },
            None => self.set_error(Message::NoSession),
        }
    }

    fn go_to(&mut self, path: String, connected: bool) -> (effects: Effects<String>)
        requires
            old(self)@.wf(),
        ensures
            final(self)@.wf(),
            (final(self)@, effects@) == old(self)@.go_to(path@, connected),
    {
        self.current_path = path;
        let mut effects: Effects<String> = self.load_current_directory(connected);
        effects.sync_editor = true;
        effects
    }

    /// Shows the directory `path` of a host. Nothing is listed where this directory of this host
    /// is shown already, through the same session. `connected` tells whether a daemon is
    /// connected for this host.
    pub fn set_remote_root(
        &mut self,
        host_id: String,
        path: String,
        session: Option<u64>,
        connected: bool,
    ) -> (effects: Effects<String>)
        requires
            old(self)@.wf(),
        ensures
            final(self)@.wf(),
            (final(self)@, effects@) == old(self)@.set_remote_root(
                host_id@,
                path@,
                session,
                connected,
            ),
    {
        let session_changed: bool = match (self.session, session) {
            (Some(a), Some(b)) => a != b,
            (None, None) => false,
            _ => true,
        };
        let host_changed: bool = match &self.host_id {
            Some(shown) => !same_text(shown.as_str(), host_id.as_str()),
            None => true,
        };
        let path_changed: bool = !same_text(self.current_path.as_str(), path.as_str());
        self.host_id = Some(host_id);
        self.session = session;
        if host_changed || path_changed || session_changed {
            self.go_to(path, connected)
        } else {
            Effects::none()
        }
    }

    fn select_first(&mut self) -> (changed: bool)
        requires
            old(self)@.wf(),
        ensures
            final(self)@.wf(),
            final(self)@ == old(self)@.select_first(),
            changed <==> old(self)@.selected is None && old(self)@.entries.len() > 0,
    {
        if self.selected_index.is_none() && self.entries.len() > 0 {
            self.selected_index = Some(0);
            true
        } else {
            false
        }
    }

    /// The panel that holds the browser got the focus.
    pub fn on_left_panel_focused(&mut self) -> (effects: Effects<String>)
        requires
            old(self)@.wf(),
        ensures
            final(self)@.wf(),
            (final(self)@, effects@) == old(self)@.focus_panel(),
    {
        self.select_first();
        let mut effects: Effects<String> = Effects::notify();
        effects.focus = true;
        effects
    }

    /// The browser, or something in it, got the focus.
    pub fn on_focus(&mut self, is_self_focused: bool) -> (effects: Effects<String>)
        requires
            old(self)@.wf(),
        ensures
            final(self)@.wf(),
            (final(self)@, effects@) == old(self)@.focus(is_self_focused),
    {
        if is_self_focused && self.select_first() {
            Effects::notify()
        } else {
            Effects::none()
        }
    }

    /// Takes over what the remote host said about the current directory. On success everything
    /// is shown anew; on an error the rows stay.
    pub fn finish_load(
        &mut self,
        listing: Result<(String, Vec<ServerFileBrowserEntry>), Status<String>>,
    ) -> (effects: Effects<String>)
        requires
            old(self)@.wf(),
        ensures
            final(self)@.wf(),
            (final(self)@, effects@) == old(self)@.finish_load(listing_view(listing)),
    {
        self.loading = false;
        let mut effects: Effects<String> = Effects::notify();
        match listing {
            Ok((canonical_path, entries)) => {
                self.current_path = canonical_path;
                effects.sync_editor = true;
                self.expanded_directories.clear();
                self.loaded_directories.clear();
                self.selected_index = None;
                effects.reset_scroll = true;
                self.context_menu_position = None;
                self.entries = entries;
                self.status = None;
                proof {
                    assert(self@.entries.len() == self.entries.len());
                    closed_rows(roots(self@.entries), self@.expanded, self@.loaded);
                }
            },
            Err(error) => {
                self.status = Some(error);
            },
        }
        effects
    }

    /// Finds out what `path` names, for `finish_resolve_and_open`.
    pub fn resolve_and_open(&mut self, path: String, connected: bool) -> (effects: Effects<String>)
        requires
            old(self)@.wf(),
        ensures
            final(self)@.wf(),
            (final(self)@, effects@) == old(self)@.resolve(path@, connected),
    {
        match self.route(connected) {
            Some(route) => {
                self.loading = true;
                self.status = None;
                let host_id: Option<String> = self.host_id.clone();
                assert(opt_text(host_id) == self@.host_id);
                Effects::notify_and(Work::Resolve { route, path, host_id })
            },
            None => self.set_error(Message::NoSession),
        }
    }

    /// Goes to the path that the user typed; a blank one is ignored.
    pub fn jump_to_editor_path(&mut self, typed: &str, connected: bool) -> (effects: Effects<
        String,
    >)
        requires
            old(self)@.wf(),
        ensures
            final(self)@.wf(),
            (final(self)@, effects@) == old(self)@.jump(typed@, connected),
    {
        let path: String = trim(typed);
        if path.as_str().is_empty() {
            return Effects::none();
        }
        self.resolve_and_open(path, connected)
    }

    /// What happened in the field for paths.
    pub fn handle_editor_event(
        &mut self,
        event: EditorEvent,
        typed: &str,
        connected: bool,
    ) -> (effects: Effects<String>)
        requires
            old(self)@.wf(),
        ensures
            final(self)@.wf(),
            (final(self)@, effects@) == old(self)@.edit(event, typed@, connected),
    {
        match event {
            EditorEvent::Enter => self.jump_to_editor_path(typed, connected),
            EditorEvent::Escape => {
                let mut effects: Effects<String> = Effects::none();
                effects.sync_editor = true;
                effects
            },
            EditorEvent::Other => Effects::none(),
        }
    }

    /// Takes over what a path names: shows a directory, opens a file on the host it was looked up
    /// for and shows the directory that holds it, and turns anything else down.
    pub fn finish_resolve_and_open(
        &mut self,
        resolved: Result<ResolvedRemotePath, Status<String>>,
        host_id: Option<String>,
        connected: bool,
    ) -> (effects: Effects<String>)
        requires
            old(self)@.wf(),
        ensures
            final(self)@.wf(),
            (final(self)@, effects@) == old(self)@.finish_resolve(
                resolved_view(resolved),
                opt_text(host_id),
                connected,
            ),
    {
        self.loading = false;
        match resolved {
            Ok(found) => match found.kind {
                FileSystemEntryKind::Directory => self.go_to(found.canonical_path, connected),
                FileSystemEntryKind::File => {
                    let parent: Option<String> = remote_parent(found.canonical_path.as_str());
                    let mut effects: Effects<String> = match parent {
                        Some(parent) => self.go_to(parent, connected),
                        None => Effects::notify(),
                    };
                    effects.open = match host_id {
                        Some(host_id) => Some((host_id, found.canonical_path)),
                        None => None,
                    };
                    effects
                },
                _ => {
                    self.status = Some(Status::Message(Message::UnsupportedPath));
                    Effects::notify()
                },
            },
            Err(error) => {
                self.status = Some(error);
                Effects::notify()
            },
        }
    }
}

impl ServerFileBrowserView {
    /// Builds the rows anew; the selected path stays selected while it is shown.
    fn rebuild_entries(&mut self)
        requires
            listings_indented(old(self)@.loaded),
            old(self)@.loaded.dom().finite(),
            ends(roots(old(self)@.entries), old(self)@.expanded, old(self)@.loaded),
        ensures
            final(self)@.wf(),
            final(self)@ == old(self)@.rebuilt(),
    {
        let selected_path: Option<String> = match self.selected_index {
            Some(index) => if index < self.entries.len() {
                Some(self.entries[index].path.clone())
            } else {
                None
            },
            None => None,
        };
        let ghost shown = self.entries@;
        let mut entries: Vec<ServerFileBrowserEntry> = Vec::new();
        std::mem::swap(&mut entries, &mut self.entries);
        self.entries =
        rebuild_entries_from(entries, &self.expanded_directories, &self.loaded_directories);
        let path: Option<&str> = match &selected_path {
            Some(path) => Some(path.as_str()),
            None => None,
        };
        self.selected_index =
        selected_index_after_rebuild(self.entries.as_slice(), path, self.selected_index);
        proof {
            assert(self@.entries.len() == self.entries.len());
            rows_keep_roots(shown, self@.expanded, self@.loaded);
            if let Some(path) = old(self)@.selected_path() {
                row_of_is_first(self@.entries, path);
            }
        }
    }

    /// Expands or collapses the directory `path`. A directory whose entries are not known yet is
    /// listed, for `finish_toggle`.
    pub fn toggle_directory(&mut self, path: String, connected: bool) -> (effects: Effects<String>)
        requires
            old(self)@.wf(),
            old(self)@.can_toggle(path@),
        ensures
            final(self)@.wf(),
            (final(self)@, effects@) == old(self)@.toggle(path@, connected),
    {
        if self.expanded_directories.remove(path.as_str()) {
            proof {
                collapsing_keeps_ends(
                    roots(self@.entries),
                    old(self)@.expanded,
                    self@.expanded,
                    self@.loaded,
                );
            }
            self.rebuild_entries();
            return Effects::notify();
        }
        assert(self.expanded_directories@ =~= old(self).expanded_directories@);
        proof {
            row_of_is_first(self@.entries, path@);
        }
        let depth: usize = match position(self.entries.as_slice(), path.as_str()) {
            Some(row) => self.entries[row].depth + 1,
            None => 1,
        };
        self.expanded_directories.insert(path.clone());
        if self.loaded_directories.contains_key(path.as_str()) {
            self.rebuild_entries();
            return Effects::notify();
        }
        proof {
            unlisted_directories_do_not_matter(
                roots(self@.entries),
                old(self)@.expanded,
                self@.expanded,
                self@.loaded,
            );
        }
        match self.route(connected) {
            Some(route) => {
                self.loading = true;
                Effects::notify_and(Work::ListChildren { route, path, depth })
            },
            None => self.set_error(Message::NoSession),
        }
    }

    /// Takes over what the remote host said about a directory that was expanded, whose entries
    /// are indented to `depth`.
    pub fn finish_toggle(
        &mut self,
        listing: Result<(String, Vec<ServerFileBrowserEntry>), Status<String>>,
        depth: usize,
    ) -> (effects: Effects<String>)
        requires
            old(self)@.wf(),
            depth > 0,
            old(self)@.can_finish_toggle(listing_view(listing), depth),
        ensures
            final(self)@.wf(),
            (final(self)@, effects@) == old(self)@.finish_toggle(listing_view(listing), depth),
    {
        self.loading = false;
        match listing {
            Ok((path, entries)) => {
                let entries: Vec<ServerFileBrowserEntry> = entries_with_depth(entries, depth);
                self.loaded_directories.insert(path, entries);
                self.rebuild_entries();
            },
            Err(error) => {
                self.status = Some(error);
            },
        }
        Effects::notify()
    }

    /// Selects a row, and expands or collapses it if it is a directory.
    pub fn click_entry(&mut self, index: usize, connected: bool) -> (effects: Effects<String>)
        requires
            old(self)@.wf(),
            old(self)@.can_open(index),
        ensures
            final(self)@.wf(),
            (final(self)@, effects@) == old(self)@.click(index, connected),
    {
        if index >= self.entries.len() {
            return Effects::none();
        }
        let kind: FileSystemEntryKind = self.entries[index].kind;
        let path: String = self.entries[index].path.clone();
        self.selected_index = Some(index);
        match kind {
            FileSystemEntryKind::Directory => self.toggle_directory(path, connected),
            _ => Effects::notify(),
        }
    }

    /// Selects a row and opens it.
    pub fn open_index(&mut self, index: usize, connected: bool) -> (effects: Effects<String>)
        requires
            old(self)@.wf(),
            old(self)@.can_open(index),
        ensures
            final(self)@.wf(),
            (final(self)@, effects@) == old(self)@.open_row(index, connected),
    {
        if index >= self.entries.len() {
            return Effects::none();
        }
        let kind: FileSystemEntryKind = self.entries[index].kind;
        let path: String = self.entries[index].path.clone();
        self.selected_index = Some(index);
        match kind {
            FileSystemEntryKind::Directory => self.toggle_directory(path, connected),
            FileSystemEntryKind::File => {
                let mut effects: Effects<String> = Effects::notify();
                effects.open = match &self.host_id {
                    Some(host_id) => Some((host_id.clone(), path)),
                    None => None,
                };
                effects
            },
            FileSystemEntryKind::Symlink
            | FileSystemEntryKind::Other
            | FileSystemEntryKind::Unspecified => self.resolve_and_open(path, connected),
        }
    }

    /// The lines of the context menu of `target`.
    pub fn context_menu_items(&self, target: &ServerFileBrowserEntry) -> (items: Vec<MenuEntry>)
        ensures
            menu_views(items@) == self@.menu_for(*target),
    {
        let is_directory: bool = target.kind == FileSystemEntryKind::Directory;
        let upload_target: String = if is_directory {
            target.path.clone()
        } else {
            match remote_parent(target.path.as_str()) {
                Some(parent) => parent,
                None => self.current_path.clone(),
            }
        };
        let mut items: Vec<MenuEntry> = Vec::new();
        items.push(
            MenuEntry {
                label: Message::MenuDownload,
                action: ServerFileBrowserAction::Download(target.path.clone()),
            },
        );
        items.push(
            MenuEntry {
                label: Message::MenuUploadFile,
                action: ServerFileBrowserAction::UploadFiles(upload_target.clone()),
            },
        );
        items.push(
            MenuEntry {
                label: Message::MenuUploadFolder,
                action: ServerFileBrowserAction::UploadFolder(upload_target),
            },
        );
        items.push(
            MenuEntry {
                label: Message::MenuCopyPath,
                action: ServerFileBrowserAction::CopyPath(target.path.clone()),
            },
        );
        if is_directory {
            items.push(
                MenuEntry {
                    label: Message::MenuJumpToPath,
                    action: ServerFileBrowserAction::JumpToDirectory(target.path.clone()),
                },
            );
        }
        assert(menu_views(items@) =~= self@.menu_for(*target));
        items
    }

    /// Selects a row and shows its context menu.
    pub fn open_context_menu(&mut self, index: usize, position: Vector2F) -> (effects: Effects<
        String,
    >)
        requires
            old(self)@.wf(),
        ensures
            final(self)@.wf(),
            (final(self)@, effects@) == old(self)@.open_menu(index, position),
    {
        if index >= self.entries.len() {
            return Effects::none();
        }
        let items: Vec<MenuEntry> = self.context_menu_items(&self.entries[index]);
        self.selected_index = Some(index);
        self.context_menu_position = Some(position);
        self.context_menu = items;
        Effects::notify()
    }

    /// Hides the context menu.
    pub fn dismiss_context_menu(&mut self) -> (effects: Effects<String>)
        requires
            old(self)@.wf(),
        ensures
            final(self)@.wf(),
            final(self)@ == old(self)@.without_menu(),
            effects@ == Effects::<Seq<char>>::redraw(),
    {
        self.context_menu_position = None;
        Effects::notify()
    }

    /// What happened in the context menu: it was closed, or something else.
    pub fn handle_menu_event(&mut self, closed: bool) -> (effects: Effects<String>)
        requires
            old(self)@.wf(),
        ensures
            final(self)@.wf(),
            (final(self)@, effects@) == old(self)@.menu_event(closed),
    {
        if closed {
            self.context_menu_position = None;
        }
        Effects::notify()
    }

    fn choose_upload(&mut self, remote_directory: String, folder: bool, connected: bool) -> (effects:
        Effects<String>)
        requires
            old(self)@.wf(),
        ensures
            final(self)@.wf(),
            (final(self)@, effects@) == old(self)@.choose_upload(
                remote_directory@,
                folder,
                connected,
            ),
    {
        if !self.has_client(connected) {
            return self.set_error(Message::NoSession);
        }
        let mut effects: Effects<String> = Effects::none();
        effects.work = Work::PickUpload { remote_directory, folder };
        effects
    }

    /// Lets the user choose files that are uploaded into `remote_directory`, for
    /// `finish_transfer`.
    pub fn choose_and_upload_files(&mut self, remote_directory: String, connected: bool) -> (effects:
        Effects<String>)
        requires
            old(self)@.wf(),
        ensures
            final(self)@.wf(),
            (final(self)@, effects@) == old(self)@.choose_upload(
                remote_directory@,
                false,
                connected,
            ),
    {
        self.choose_upload(remote_directory, false, connected)
    }

    /// Lets the user choose a folder that is uploaded into `remote_directory`, for
    /// `finish_transfer`.
    pub fn choose_and_upload_folder(&mut self, remote_directory: String, connected: bool) -> (effects:
        Effects<String>)
        requires
            old(self)@.wf(),
        ensures
            final(self)@.wf(),
            (final(self)@, effects@) == old(self)@.choose_upload(
                remote_directory@,
                true,
                connected,
            ),
    {
        self.choose_upload(remote_directory, true, connected)
    }

    /// Lets the user choose where `remote_path`, which is one of the rows, is downloaded to, for
    /// `finish_transfer`.
    pub fn choose_download_destination(&mut self, remote_path: String, connected: bool) -> (effects:
        Effects<String>)
        requires
            old(self)@.wf(),
        ensures
            final(self)@.wf(),
            (final(self)@, effects@) == old(self)@.choose_download(remote_path@, connected),
    {
        proof {
            row_of_is_first(self@.entries, remote_path@);
        }
        let row: usize = match position(self.entries.as_slice(), remote_path.as_str()) {
            Some(row) => row,
            None => {
                return Effects::none();
            },
        };
        if !self.has_client(connected) {
            return self.set_error(Message::NoSession);
        }
        let mut effects: Effects<String> = Effects::none();
        effects.work = match self.entries[row].kind {
            FileSystemEntryKind::Directory => Work::PickDownloadFolder { remote_path },
            _ => {
                let default_filename: String = match remote_basename(remote_path.as_str()) {
                    Some(name) => name,
                    None => self.entries[row].name.clone(),
                };
                Work::PickDownloadFile { remote_path, default_filename }
            },
        };
        effects
    }

    /// Takes note of the outcome of a transfer; after a success the current directory is listed
    /// anew.
    pub fn finish_transfer(&mut self, result: Result<(), Status<String>>, connected: bool) -> (effects:
        Effects<String>)
        requires
            old(self)@.wf(),
        ensures
            final(self)@.wf(),
            (final(self)@, effects@) == old(self)@.finish_transfer(
                transfer_view(result),
                connected,
            ),
    {
        match result {
            Ok(()) => {
                self.status = Some(Status::Message(Message::TransferComplete));
                self.load_current_directory(connected)
            },
            Err(error) => {
                self.status = Some(error);
                Effects::notify()
            },
        }
    }
}

impl ServerFileBrowserView {
    /// Selects a row, if there is such a row.
    pub fn select_index(&mut self, index: usize) -> (effects: Effects<String>)
        requires
            old(self)@.wf(),
        ensures
            final(self)@.wf(),
            (final(self)@, effects@) == old(self)@.select(index),
    {
        if index < self.entries.len() {
            self.selected_index = Some(index);
            Effects::notify()
        } else {
            Effects::none()
        }
    }

    /// Puts `path` on the clipboard.
    pub fn copy_path(&mut self, path: String) -> (effects: Effects<String>)
        requires
            old(self)@.wf(),
        ensures
            final(self)@.wf(),
            (final(self)@, effects@) == old(self)@.copy(path@),
    {
        self.status = Some(Status::Message(Message::CopiedPath));
        let mut effects: Effects<String> = self.dismiss_context_menu();
        effects.work = Work::Copy { path };
        effects
    }

    /// Moves the selection up.
    pub fn select_previous_item(&mut self) -> (effects: Effects<String>)
        requires
            old(self)@.wf(),
        ensures
            final(self)@.wf(),
            (final(self)@, effects@) == old(self)@.select_previous(),
    {
        self.selected_index = previous_index(self.selected_index, self.entries.len());
        Effects::notify()
    }

    /// Moves the selection down.
    pub fn select_next_item(&mut self) -> (effects: Effects<String>)
        requires
            old(self)@.wf(),
        ensures
            final(self)@.wf(),
            (final(self)@, effects@) == old(self)@.select_next(),
    {
        self.selected_index = next_index(self.selected_index, self.entries.len());
        Effects::notify()
    }

    fn selected_directory(&self) -> (path: Option<String>)
        requires
            self@.wf(),
        ensures
            opt_text(path) == self@.selected_directory(),
    {
        match self.selected_index {
            Some(index) => if self.entries[index].kind == FileSystemEntryKind::Directory {
                Some(self.entries[index].path.clone())
            } else {
                None
            },
            None => None,
        }
    }

    /// Expands the selected directory.
    pub fn expand_selected_item(&mut self, connected: bool) -> (effects: Effects<String>)
        requires
            old(self)@.wf(),
            old(self)@.can_act(ActionView::ExpandSelectedItem),
        ensures
            final(self)@.wf(),
            (final(self)@, effects@) == old(self)@.expand_selected(connected),
    {
        match self.selected_directory() {
            Some(path) => if self.expanded_directories.contains(path.as_str()) {
                Effects::none()
            } else {
                self.toggle_directory(path, connected)
            },
            None => Effects::none(),
        }
    }

    /// Collapses the selected directory.
    pub fn collapse_selected_item(&mut self, connected: bool) -> (effects: Effects<String>)
        requires
            old(self)@.wf(),
        ensures
            final(self)@.wf(),
            (final(self)@, effects@) == old(self)@.collapse_selected(connected),
    {
        match self.selected_directory() {
            Some(path) => if self.expanded_directories.contains(path.as_str()) {
                self.toggle_directory(path, connected)
            } else {
                Effects::none()
            },
            None => Effects::none(),
        }
    }

    /// Opens the selected row.
    pub fn execute_selected_item(&mut self, connected: bool) -> (effects: Effects<String>)
        requires
            old(self)@.wf(),
            old(self)@.can_act(ActionView::ExecuteSelectedItem),
        ensures
            final(self)@.wf(),
            (final(self)@, effects@) == old(self)@.open_selected(connected),
    {
        match self.selected_index {
            Some(index) => self.open_index(index, connected),
            None => Effects::none(),
        }
    }

    /// Whether the directory `path` can be expanded or collapsed. Nothing changes.
    fn can_toggle(&mut self, path: &str) -> (can: bool)
        requires
            old(self)@.wf(),
        ensures
            final(self)@ == old(self)@,
            can == old(self)@.can_toggle(path@),
    {
        if self.expanded_directories.contains(path) {
            return true;
        }
        proof {
            row_of_is_first(self@.entries, path@);
        }
        if let Some(row) = position(self.entries.as_slice(), path) {
            if self.entries[row].depth == usize::MAX {
                return false;
            }
        }
        if !self.loaded_directories.contains_key(path) {
            return true;
        }
        self.expanded_directories.insert(path.to_owned());
        let can: bool = rows_end(
            &self.entries,
            &self.expanded_directories,
            &self.loaded_directories,
        );
        self.expanded_directories.remove(path);
        assert(self@.expanded =~= old(self)@.expanded);
        can
    }

    fn can_open(&mut self, index: usize) -> (can: bool)
        requires
            old(self)@.wf(),
        ensures
            final(self)@ == old(self)@,
            can == old(self)@.can_open(index),
    {
        if index < self.entries.len() && self.entries[index].kind
            == FileSystemEntryKind::Directory {
            let path: String = self.entries[index].path.clone();
            self.can_toggle(path.as_str())
        } else {
            true
        }
    }

    /// Whether the user's `action` can be done. Nothing changes.
    fn can_act(&mut self, action: &ServerFileBrowserAction) -> (can: bool)
        requires
            old(self)@.wf(),
        ensures
            final(self)@ == old(self)@,
            can == old(self)@.can_act(action@),
    {
        match action {
            ServerFileBrowserAction::ClickEntry(index) => self.can_open(*index),
            ServerFileBrowserAction::OpenEntry(index) => self.can_open(*index),
            ServerFileBrowserAction::ToggleDirectory(path) => self.can_toggle(path.as_str()),
            ServerFileBrowserAction::ExpandSelectedItem
            | ServerFileBrowserAction::ExecuteSelectedItem => match self.selected_index {
                Some(index) => self.can_open(index),
                None => true,
            },
            _ => true,
        }
    }

    /// Does what the user asked for, if it can be done; otherwise nothing changes.
    pub fn try_handle_action(
        &mut self,
        action: ServerFileBrowserAction,
        connected: bool,
        typed: &str,
    ) -> (effects: Option<Effects<String>>)
        requires
            old(self)@.wf(),
        ensures
            final(self)@.wf(),
            match effects {
                Some(effects) => {
                    &&& old(self)@.can_act(action@)
                    &&& (final(self)@, effects@) == old(self)@.act(action@, connected, typed@)
                },
                None => !old(self)@.can_act(action@) && final(self)@ == old(self)@,
            },
    {
        if self.can_act(&action) {
            Some(self.handle_action(action, connected, typed))
        } else {
            None
        }
    }

    /// Takes over what the remote host said about a directory that was expanded, if no directory
    /// is then shown below itself; otherwise nothing changes.
    pub fn try_finish_toggle(
        &mut self,
        listing: Result<(String, Vec<ServerFileBrowserEntry>), Status<String>>,
        depth: usize,
    ) -> (effects: Option<Effects<String>>)
        requires
            old(self)@.wf(),
            depth > 0,
        ensures
            final(self)@.wf(),
            match effects {
                Some(effects) => {
                    &&& old(self)@.can_finish_toggle(listing_view(listing), depth)
                    &&& (final(self)@, effects@) == old(self)@.finish_toggle(
                        listing_view(listing),
                        depth,
                    )
                },
                None => {
                    &&& !old(self)@.can_finish_toggle(listing_view(listing), depth)
                    &&& final(self)@ == old(self)@
                },
            },
    {
        let (path, entries) = match listing {
            Ok(listing) => listing,
            Err(error) => {
                return Some(self.finish_toggle(Err(error), depth));
            },
        };
        let known: Option<Vec<ServerFileBrowserEntry>> = match self.loaded_directories.get(
            path.as_str(),
        ) {
            Some(known) => {
                let copy: Vec<ServerFileBrowserEntry> = known.clone();
                assert(copy@ =~= known@);
                Some(copy)
            },
            None => None,
        };
        let children: Vec<ServerFileBrowserEntry> = entries_with_depth(entries, depth);
        self.loaded_directories.insert(path.clone(), children);
        if rows_end(&self.entries, &self.expanded_directories, &self.loaded_directories) {
            self.loading = false;
            self.rebuild_entries();
            Some(Effects::notify())
        } else {
            match known {
                Some(known) => {
                    self.loaded_directories.insert(path, known);
                },
                None => {
                    self.loaded_directories.remove(path.as_str());
                },
            }
            assert(self@.loaded =~= old(self)@.loaded);
            None
        }
    }

    /// Does what the user asked for. The text in the field for paths is `typed`; `connected`
    /// tells whether a daemon is connected for the host that is shown.
    pub fn handle_action(
        &mut self,
        action: ServerFileBrowserAction,
        connected: bool,
        typed: &str,
    ) -> (effects: Effects<String>)
        requires
            old(self)@.wf(),
            old(self)@.can_act(action@),
        ensures
            final(self)@.wf(),
            (final(self)@, effects@) == old(self)@.act(action@, connected, typed@),
    {
        match action {
            ServerFileBrowserAction::Refresh => self.load_current_directory(connected),
            ServerFileBrowserAction::JumpToPath => self.jump_to_editor_path(typed, connected),
            ServerFileBrowserAction::ClickEntry(index) => {
                let mut effects: Effects<String> = self.click_entry(index, connected);
                effects.focus = true;
                effects
            },
            ServerFileBrowserAction::OpenEntry(index) => {
                let mut effects: Effects<String> = self.open_index(index, connected);
                effects.focus = true;
                effects
            },
            ServerFileBrowserAction::ToggleDirectory(path) => self.toggle_directory(
                path,
                connected,
            ),
            ServerFileBrowserAction::SelectPreviousItem => self.select_previous_item(),
            ServerFileBrowserAction::SelectNextItem => self.select_next_item(),
            ServerFileBrowserAction::ExpandSelectedItem => self.expand_selected_item(connected),
            ServerFileBrowserAction::CollapseSelectedItem => self.collapse_selected_item(connected),
            ServerFileBrowserAction::ExecuteSelectedItem => self.execute_selected_item(connected),
            ServerFileBrowserAction::OpenContextMenu { index, position } => self.open_context_menu(
                index,
                position,
            ),
            ServerFileBrowserAction::DismissContextMenu => self.dismiss_context_menu(),
            ServerFileBrowserAction::CopyPath(path) => self.copy_path(path),
            ServerFileBrowserAction::JumpToDirectory(path) => {
                self.dismiss_context_menu();
                self.go_to(path, connected)
            },
            ServerFileBrowserAction::Download(path) => {
                self.dismiss_context_menu();
                let mut effects: Effects<String> = self.choose_download_destination(
                    path,
                    connected,
                );
                effects.notify = true;
                effects
            },
            ServerFileBrowserAction::UploadFiles(path) => {
                self.dismiss_context_menu();
                let mut effects: Effects<String> = self.choose_and_upload_files(path, connected);
                effects.notify = true;
                effects
            },
            ServerFileBrowserAction::UploadFolder(path) => {
                self.dismiss_context_menu();
                let mut effects: Effects<String> = self.choose_and_upload_folder(path, connected);
                effects.notify = true;
                effects
            },
        }
    }
}

impl ServerFileBrowserView {
    /// The directory that is shown.
    pub fn current_path(&self) -> (path: &str)
        ensures
            path@ == self@.current_path,
    {
        self.current_path.as_str()
    }

    /// The host that is shown.
    pub fn host_id(&self) -> (host_id: Option<&str>)
        ensures
            opt_str(host_id) == self@.host_id,
    {
        match &self.host_id {
            Some(host_id) => Some(host_id.as_str()),
            None => None,
        }
    }

    /// The rows.
    pub fn entries(&self) -> (entries: &Vec<ServerFileBrowserEntry>)
        ensures
            entries@ == self@.entries,
    {
        &self.entries
    }

    /// The selected row.
    pub fn selected_index(&self) -> (index: Option<usize>)
        ensures
            index == self@.selected,
    {
        self.selected_index
    }

    /// Whether the browser waits for the remote host.
    pub fn is_loading(&self) -> (loading: bool)
        ensures
            loading == self@.loading,
    {
        self.loading
    }

    /// What the user is told.
    pub fn status(&self) -> (status: Option<Status<String>>)
        ensures
            opt_status(status) == self@.status,
    {
        match &self.status {
            Some(status) => Some(status.clone()),
            None => None,
        }
    }

    /// The lines of the context menu.
    pub fn context_menu(&self) -> (menu: &Vec<MenuEntry>)
        ensures
            menu_views(menu@) == self@.menu,
    {
        &self.context_menu
    }

    /// Where the context menu is shown, if it is.
    pub fn context_menu_position(&self) -> (position: Option<Vector2F>)
        ensures
            position == self@.menu_position,
    {
        self.context_menu_position
    }

    /// What stands below the toolbar.
    pub fn contents(&self) -> (contents: Contents)
        ensures
            contents == contents_of(self@),
    {
        if self.host_id.is_none() {
            Contents::Message(Message::NoSession)
        } else if self.loading && self.entries.len() == 0 {
            Contents::Message(Message::Loading)
        } else if self.entries.len() == 0 {
            Contents::Message(Message::EmptyDirectory)
        } else {
            Contents::Rows
        }
    }

    /// The row `index` as it is drawn, if there is such a row. The text `modified` says that the
    /// time of the last change is known.
    pub fn row(&self, index: usize, modified: &str) -> (row: Option<Row<String>>)
        ensures
            match row {
                Some(row) => {
                    &&& index < self@.entries.len()
                    &&& row@ == row_for(
                        self@.entries[index as int],
                        self@.selected == Some(index),
                        self@.expanded.contains(self@.entries[index as int].path@),
                        modified@,
                    )
                },
                None => index >= self@.entries.len(),
            },
    {
        if index >= self.entries.len() {
            return None;
        }
        let entry: &ServerFileBrowserEntry = &self.entries[index];
        let is_selected: bool = match self.selected_index {
            Some(selected) => selected == index,
            None => false,
        };
        Some(
            entry_row(
                entry,
                is_selected,
                self.expanded_directories.contains(entry.path.as_str()),
                modified,
            ),
        )
    }
}

} // verus!
