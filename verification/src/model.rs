//! The browser as a mathematical object: what it holds, what becomes of it with each thing that
//! happens, and what holds of it throughout.

use crate::action::{ActionView, EditorEvent, Effects, MenuEntry, MenuEntryView, Route, Work};
use crate::entry::{all_at_depth, FileSystemEntryKind, ServerFileBrowserEntry};
use crate::listing::ResolvedRemotePath;
use crate::paths::{basename_of, parent_of};
use crate::selection::{
    in_bounds, row_after, row_after_rebuild, row_before, row_of, shown_path_stays_selected,
};
use crate::status::{Message, Status};
use crate::text::trimmed;
use crate::tree::{
    closed_rows, ends, expanding_keeps_order, extends_directories, extends_directory,
    growing_paths_end, is_subsequence, listings_indented, roots, rows, rows_keep_roots,
    subsequence_is_contained, unlisted_directories_do_not_matter,
};
use pathfinder_geometry::vector::Vector2F;
use vstd::prelude::*;

verus! {

/// What the browser holds.
pub struct Browser {
    /// The host that is shown.
    pub host_id: Option<Seq<char>>,
    /// The session on the host that stands in while no daemon is connected.
    pub session: Option<u64>,
    /// The directory that is shown; empty for the user's home directory.
    pub current_path: Seq<char>,
    /// The rows.
    pub entries: Seq<ServerFileBrowserEntry>,
    /// The directories that the user has expanded.
    pub expanded: Set<Seq<char>>,
    /// The entries of the directories that have been listed.
    pub loaded: Map<Seq<char>, Seq<ServerFileBrowserEntry>>,
    /// The selected row.
    pub selected: Option<usize>,
    /// Whether the browser waits for the remote host.
    pub loading: bool,
    /// What the user is told.
    pub status: Option<Status<Seq<char>>>,
    /// The lines of the context menu.
    pub menu: Seq<MenuEntryView>,
    /// Where the context menu is shown, if it is.
    pub menu_position: Option<Vector2F>,
}

/// The lines of a context menu with their paths taken as sequences of characters.
pub open spec fn menu_views(menu: Seq<MenuEntry>) -> Seq<MenuEntryView> {
    menu.map_values(|entry: MenuEntry| entry@)
}

/// A listing, or the error in its place, with strings taken as sequences of characters.
pub open spec fn listing_view(
    listing: Result<(String, Vec<ServerFileBrowserEntry>), Status<String>>,
) -> Result<(Seq<char>, Seq<ServerFileBrowserEntry>), Status<Seq<char>>> {
    match listing {
        Ok((path, entries)) => Ok((path@, entries@)),
        Err(error) => Err(error@),
    }
}

/// What a path names, or the error in its place, with strings taken as sequences of characters.
pub open spec fn resolved_view(resolved: Result<ResolvedRemotePath, Status<String>>) -> Result<
    (Seq<char>, FileSystemEntryKind),
    Status<Seq<char>>,
> {
    match resolved {
        Ok(found) => Ok((found.canonical_path@, found.kind)),
        Err(error) => Err(error@),
    }
}

/// The outcome of a transfer with strings taken as sequences of characters.
pub open spec fn transfer_view(result: Result<(), Status<String>>) -> Result<
    (),
    Status<Seq<char>>,
> {
    match result {
        Ok(()) => Ok(()),
        Err(error) => Err(error@),
    }
}

impl Browser {
    /// A browser that shows nothing yet.
    pub open spec fn start() -> Self {
        Browser {
            host_id: None,
            session: None,
            current_path: Seq::empty(),
            entries: Seq::empty(),
            expanded: Set::empty(),
            loaded: Map::empty(),
            selected: None,
            loading: false,
            status: Some(Status::Message(Message::Empty)),
            menu: Seq::empty(),
            menu_position: None,
        }
    }

    /// What holds of the browser at all times: the selected row is one of the rows, what was
    /// listed for an expanded directory is indented, and no directory is shown below itself.
    pub open spec fn wf(self) -> bool {
        &&& self.entries.len() <= usize::MAX
        &&& in_bounds(self.selected, self.entries.len())
        &&& self.loaded.dom().finite()
        &&& listings_indented(self.loaded)
        &&& ends(roots(self.entries), self.expanded, self.loaded)
    }

    /// How the host is reached, given whether a daemon is connected for it.
    pub open spec fn route(self, connected: bool) -> Option<Route> {
        if self.has_client(connected) {
            Some(Route::Client)
        } else {
            match self.session {
                Some(session) => Some(Route::Session(session)),
                None => None,
            }
        }
    }

    /// Whether the host can be reached through its daemon.
    pub open spec fn has_client(self, connected: bool) -> bool {
        self.host_id is Some && connected
    }

    /// Shows an error.
    pub open spec fn failed(self, message: Message) -> (Browser, Effects<Seq<char>>) {
        (
            Browser { loading: false, status: Some(Status::Message(message)), ..self },
            Effects::<Seq<char>>::redraw(),
        )
    }

    /// Lists the current directory.
    pub open spec fn load(self, connected: bool) -> (Browser, Effects<Seq<char>>) {
        match self.route(connected) {
            Some(route) => (
                Browser { loading: true, status: None, ..self },
                Effects::<Seq<char>>::redraw_and(
                    Work::ListCurrent {
                        route,
                        path: if self.current_path.len() == 0 {
                            "~"@
                        } else {
                            self.current_path
                        },
                    },
                ),
            ),
            None => self.failed(Message::NoSession),
        }
    }

    /// Shows another directory.
    pub open spec fn go_to(self, path: Seq<char>, connected: bool) -> (
        Browser,
        Effects<Seq<char>>,
    ) {
        let (browser, effects) = Browser { current_path: path, ..self }.load(connected);
        (browser, Effects { sync_editor: true, ..effects })
    }

    /// Shows a directory of a host, unless it is shown already.
    pub open spec fn set_remote_root(
        self,
        host_id: Seq<char>,
        path: Seq<char>,
        session: Option<u64>,
        connected: bool,
    ) -> (Browser, Effects<Seq<char>>) {
        let browser = Browser { host_id: Some(host_id), session, ..self };
        if self.host_id == Some(host_id) && self.current_path == path && self.session == session {
            (browser, Effects::<Seq<char>>::nothing())
        } else {
            browser.go_to(path, connected)
        }
    }

    /// Selects the first row if none is selected.
    pub open spec fn select_first(self) -> Browser {
        if self.selected is None && self.entries.len() > 0 {
            Browser { selected: Some(0), ..self }
        } else {
            self
        }
    }

    /// The panel that holds the browser got the focus.
    pub open spec fn focus_panel(self) -> (Browser, Effects<Seq<char>>) {
        (self.select_first(), Effects { focus: true, ..Effects::<Seq<char>>::redraw() })
    }

    /// The browser, or something in it, got the focus.
    pub open spec fn focus(self, is_self_focused: bool) -> (Browser, Effects<Seq<char>>) {
        if is_self_focused && self.selected is None && self.entries.len() > 0 {
            (self.select_first(), Effects::<Seq<char>>::redraw())
        } else {
            (self, Effects::<Seq<char>>::nothing())
        }
    }

    /// What happened in the field for paths, whose text is `typed`.
    pub open spec fn edit(self, event: EditorEvent, typed: Seq<char>, connected: bool) -> (
        Browser,
        Effects<Seq<char>>,
    ) {
        match event {
            EditorEvent::Enter => self.jump(typed, connected),
            EditorEvent::Escape => (
                self,
                Effects { sync_editor: true, ..Effects::<Seq<char>>::nothing() },
            ),
            EditorEvent::Other => (self, Effects::<Seq<char>>::nothing()),
        }
    }

    /// Selects a row, if there is such a row.
    pub open spec fn select(self, index: usize) -> (Browser, Effects<Seq<char>>) {
        if index < self.entries.len() {
            (Browser { selected: Some(index), ..self }, Effects::<Seq<char>>::redraw())
        } else {
            (self, Effects::<Seq<char>>::nothing())
        }
    }

    /// Takes over what the remote host said about the current directory.
    pub open spec fn finish_load(
        self,
        listing: Result<(Seq<char>, Seq<ServerFileBrowserEntry>), Status<Seq<char>>>,
    ) -> (Browser, Effects<Seq<char>>) {
        match listing {
            Ok((path, entries)) => (
                Browser {
                    current_path: path,
                    entries,
                    expanded: Set::empty(),
                    loaded: Map::empty(),
                    selected: None,
                    loading: false,
                    status: None,
                    menu_position: None,
                    ..self
                },
                Effects {
                    sync_editor: true,
                    reset_scroll: true,
                    ..Effects::<Seq<char>>::redraw()
                },
            ),
            Err(error) => (
                Browser { loading: false, status: Some(error), ..self },
                Effects::<Seq<char>>::redraw(),
            ),
        }
    }

    /// Finds out what a path names.
    pub open spec fn resolve(self, path: Seq<char>, connected: bool) -> (
        Browser,
        Effects<Seq<char>>,
    ) {
        match self.route(connected) {
            Some(route) => (
                Browser { loading: true, status: None, ..self },
                Effects::<Seq<char>>::redraw_and(
                    Work::Resolve { route, path, host_id: self.host_id },
                ),
            ),
            None => self.failed(Message::NoSession),
        }
    }

    /// Goes to the path that the user typed.
    pub open spec fn jump(self, typed: Seq<char>, connected: bool) -> (
        Browser,
        Effects<Seq<char>>,
    ) {
        if trimmed(typed).len() == 0 {
            (self, Effects::<Seq<char>>::nothing())
        } else {
            self.resolve(trimmed(typed), connected)
        }
    }

    /// Goes to a directory, or opens a file and goes to the directory that holds it.
    pub open spec fn finish_resolve(
        self,
        resolved: Result<(Seq<char>, FileSystemEntryKind), Status<Seq<char>>>,
        host_id: Option<Seq<char>>,
        connected: bool,
    ) -> (Browser, Effects<Seq<char>>) {
        let browser = Browser { loading: false, ..self };
        match resolved {
            Ok((path, FileSystemEntryKind::Directory)) => browser.go_to(path, connected),
            Ok((path, FileSystemEntryKind::File)) => {
                let open = match host_id {
                    Some(host_id) => Some((host_id, path)),
                    None => None,
                };
                match parent_of(path) {
                    Some(parent) => {
                        let (browser, effects) = browser.go_to(parent, connected);
                        (browser, Effects { open, ..effects })
                    },
                    None => (browser, Effects { open, ..Effects::<Seq<char>>::redraw() }),
                }
            },
            Ok(_) => (
                Browser { status: Some(Status::Message(Message::UnsupportedPath)), ..browser },
                Effects::<Seq<char>>::redraw(),
            ),
            Err(error) => (
                Browser { status: Some(error), ..browser },
                Effects::<Seq<char>>::redraw(),
            ),
        }
    }

    /// The path of the selected row.
    pub open spec fn selected_path(self) -> Option<Seq<char>> {
        match self.selected {
            Some(row) if row < self.entries.len() => Some(self.entries[row as int].path@),
            _ => None,
        }
    }

    /// Builds the rows anew; the selected path stays selected while it is shown.
    pub open spec fn rebuilt(self) -> Browser {
        let entries = rows(roots(self.entries), self.expanded, self.loaded);
        Browser {
            entries,
            selected: row_after_rebuild(entries, self.selected_path(), self.selected),
            ..self
        }
    }

    /// How far the entries of the directory `path` are indented.
    pub open spec fn child_depth(self, path: Seq<char>) -> int {
        match row_of(self.entries, path) {
            Some(row) => self.entries[row as int].depth + 1,
            None => 1,
        }
    }

    /// Whether the directory `path` can be expanded or collapsed: its entries can be indented, and
    /// it is not shown below itself.
    pub open spec fn can_toggle(self, path: Seq<char>) -> bool {
        self.expanded.contains(path) || {
            &&& self.child_depth(path) <= usize::MAX
            &&& self.loaded.contains_key(path) ==> ends(
                roots(self.entries),
                self.expanded.insert(path),
                self.loaded,
            )
        }
    }

    /// Expands or collapses the directory `path`. A directory is listed when it is expanded for
    /// the first time.
    pub open spec fn toggle(self, path: Seq<char>, connected: bool) -> (
        Browser,
        Effects<Seq<char>>,
    ) {
        if self.expanded.contains(path) {
            (
                Browser { expanded: self.expanded.remove(path), ..self }.rebuilt(),
                Effects::<Seq<char>>::redraw(),
            )
        } else {
            let browser = Browser { expanded: self.expanded.insert(path), ..self };
            if self.loaded.contains_key(path) {
                (browser.rebuilt(), Effects::<Seq<char>>::redraw())
            } else {
                match self.route(connected) {
                    Some(route) => (
                        Browser { loading: true, ..browser },
                        Effects::<Seq<char>>::redraw_and(
                            Work::ListChildren {
                                route,
                                path,
                                depth: self.child_depth(path) as usize,
                            },
                        ),
                    ),
                    None => browser.failed(Message::NoSession),
                }
            }
        }
    }

    /// Whether no directory is shown below itself once `listing` is taken over.
    pub open spec fn can_finish_toggle(
        self,
        listing: Result<(Seq<char>, Seq<ServerFileBrowserEntry>), Status<Seq<char>>>,
        depth: usize,
    ) -> bool {
        listing matches Ok((path, entries)) ==> ends(
            roots(self.entries),
            self.expanded,
            self.loaded.insert(path, all_at_depth(entries, depth)),
        )
    }

    /// Takes over what the remote host said about a directory that was expanded.
    pub open spec fn finish_toggle(
        self,
        listing: Result<(Seq<char>, Seq<ServerFileBrowserEntry>), Status<Seq<char>>>,
        depth: usize,
    ) -> (Browser, Effects<Seq<char>>) {
        let browser = Browser { loading: false, ..self };
        match listing {
            Ok((path, entries)) => (
                Browser {
                    loaded: self.loaded.insert(path, all_at_depth(entries, depth)),
                    ..browser
                }.rebuilt(),
                Effects::<Seq<char>>::redraw(),
            ),
            Err(error) => (
                Browser { status: Some(error), ..browser },
                Effects::<Seq<char>>::redraw(),
            ),
        }
    }

    /// Selects a row, and expands or collapses it if it is a directory.
    pub open spec fn click(self, index: usize, connected: bool) -> (Browser, Effects<Seq<char>>) {
        if index < self.entries.len() {
            let entry = self.entries[index as int];
            let browser = Browser { selected: Some(index), ..self };
            match entry.kind {
                FileSystemEntryKind::Directory => browser.toggle(entry.path@, connected),
                _ => (browser, Effects::<Seq<char>>::redraw()),
            }
        } else {
            (self, Effects::<Seq<char>>::nothing())
        }
    }

    /// Selects a row and opens it: a directory is expanded or collapsed, a file is opened, and
    /// of anything else it is first found out what it names.
    pub open spec fn open_row(self, index: usize, connected: bool) -> (
        Browser,
        Effects<Seq<char>>,
    ) {
        if index < self.entries.len() {
            let entry = self.entries[index as int];
            let browser = Browser { selected: Some(index), ..self };
            match entry.kind {
                FileSystemEntryKind::Directory => browser.toggle(entry.path@, connected),
                FileSystemEntryKind::File => (
                    browser,
                    Effects {
                        open: match self.host_id {
                            Some(host_id) => Some((host_id, entry.path@)),
                            None => None,
                        },
                        ..Effects::<Seq<char>>::redraw()
                    },
                ),
                _ => browser.resolve(entry.path@, connected),
            }
        } else {
            (self, Effects::<Seq<char>>::nothing())
        }
    }

    /// The lines of the context menu of `entry`. Uploads go to a directory itself, and next to
    /// anything else.
    pub open spec fn menu_for(self, entry: ServerFileBrowserEntry) -> Seq<MenuEntryView> {
        let path = entry.path@;
        let is_directory = entry.kind is Directory;
        let target = if is_directory {
            path
        } else {
            match parent_of(path) {
                Some(parent) => parent,
                None => self.current_path,
            }
        };
        let lines = seq![
            MenuEntryView { label: Message::MenuDownload, action: ActionView::Download(path) },
            MenuEntryView {
                label: Message::MenuUploadFile,
                action: ActionView::UploadFiles(target),
            },
            MenuEntryView {
                label: Message::MenuUploadFolder,
                action: ActionView::UploadFolder(target),
            },
            MenuEntryView { label: Message::MenuCopyPath, action: ActionView::CopyPath(path) },
        ];
        if is_directory {
            lines.push(
                MenuEntryView {
                    label: Message::MenuJumpToPath,
                    action: ActionView::JumpToDirectory(path),
                },
            )
        } else {
            lines
        }
    }

    /// Selects a row and shows its context menu.
    pub open spec fn open_menu(self, index: usize, position: Vector2F) -> (
        Browser,
        Effects<Seq<char>>,
    ) {
        if index < self.entries.len() {
            (
                Browser {
                    selected: Some(index),
                    menu: self.menu_for(self.entries[index as int]),
                    menu_position: Some(position),
                    ..self
                },
                Effects::<Seq<char>>::redraw(),
            )
        } else {
            (self, Effects::<Seq<char>>::nothing())
        }
    }

    /// Hides the context menu.
    pub open spec fn without_menu(self) -> Browser {
        Browser { menu_position: None, ..self }
    }

    /// What happened in the context menu: it was closed, or something else.
    pub open spec fn menu_event(self, closed: bool) -> (Browser, Effects<Seq<char>>) {
        (
            if closed {
                self.without_menu()
            } else {
                self
            },
            Effects::<Seq<char>>::redraw(),
        )
    }

    /// Lets the user choose what is uploaded into `remote_directory`.
    pub open spec fn choose_upload(
        self,
        remote_directory: Seq<char>,
        folder: bool,
        connected: bool,
    ) -> (Browser, Effects<Seq<char>>) {
        if self.has_client(connected) {
            (
                self,
                Effects {
                    work: Work::PickUpload { remote_directory, folder },
                    ..Effects::<Seq<char>>::nothing()
                },
            )
        } else {
            self.failed(Message::NoSession)
        }
    }

    /// Lets the user choose where `remote_path` is downloaded to.
    pub open spec fn choose_download(self, remote_path: Seq<char>, connected: bool) -> (
        Browser,
        Effects<Seq<char>>,
    ) {
        match row_of(self.entries, remote_path) {
            None => (self, Effects::<Seq<char>>::nothing()),
            Some(row) => if self.has_client(connected) {
                (
                    self,
                    Effects {
                        work: match self.entries[row as int].kind {
                            FileSystemEntryKind::Directory => Work::PickDownloadFolder {
                                remote_path,
                            },
                            _ => Work::PickDownloadFile {
                                remote_path,
                                default_filename: basename_of(remote_path),
                            },
                        },
                        ..Effects::<Seq<char>>::nothing()
                    },
                )
            } else {
                self.failed(Message::NoSession)
            },
        }
    }

    /// Takes note of the outcome of a transfer.
    pub open spec fn finish_transfer(
        self,
        result: Result<(), Status<Seq<char>>>,
        connected: bool,
    ) -> (Browser, Effects<Seq<char>>) {
        match result {
            Ok(()) => Browser {
                status: Some(Status::Message(Message::TransferComplete)),
                ..self
            }.load(connected),
            Err(error) => (
                Browser { status: Some(error), ..self },
                Effects::<Seq<char>>::redraw(),
            ),
        }
    }

    /// The selected entry, if it is a directory.
    pub open spec fn selected_directory(self) -> Option<Seq<char>> {
        match self.selected {
            Some(row) if row < self.entries.len() && self.entries[row as int].kind
                is Directory => Some(self.entries[row as int].path@),
            _ => None,
        }
    }

    /// Moves the selection up.
    pub open spec fn select_previous(self) -> (Browser, Effects<Seq<char>>) {
        (
            Browser {
                selected: row_before(self.selected, self.entries.len() as usize),
                ..self
            },
            Effects::<Seq<char>>::redraw(),
        )
    }

    /// Moves the selection down.
    pub open spec fn select_next(self) -> (Browser, Effects<Seq<char>>) {
        (
            Browser { selected: row_after(self.selected, self.entries.len() as usize), ..self },
            Effects::<Seq<char>>::redraw(),
        )
    }

    /// Expands the selected directory.
    pub open spec fn expand_selected(self, connected: bool) -> (Browser, Effects<Seq<char>>) {
        match self.selected_directory() {
            Some(path) if !self.expanded.contains(path) => self.toggle(path, connected),
            _ => (self, Effects::<Seq<char>>::nothing()),
        }
    }

    /// Collapses the selected directory.
    pub open spec fn collapse_selected(self, connected: bool) -> (Browser, Effects<Seq<char>>) {
        match self.selected_directory() {
            Some(path) if self.expanded.contains(path) => self.toggle(path, connected),
            _ => (self, Effects::<Seq<char>>::nothing()),
        }
    }

    /// Opens the selected row.
    pub open spec fn open_selected(self, connected: bool) -> (Browser, Effects<Seq<char>>) {
        match self.selected {
            Some(index) => self.open_row(index, connected),
            None => (self, Effects::<Seq<char>>::nothing()),
        }
    }

    /// Puts `path` on the clipboard.
    pub open spec fn copy(self, path: Seq<char>) -> (Browser, Effects<Seq<char>>) {
        (
            Browser {
                status: Some(Status::Message(Message::CopiedPath)),
                ..self.without_menu()
            },
            Effects::<Seq<char>>::redraw_and(Work::Copy { path }),
        )
    }

    /// What the user's `action` does. The text in the field for paths is `typed`.
    pub open spec fn act(self, action: ActionView, connected: bool, typed: Seq<char>) -> (
        Browser,
        Effects<Seq<char>>,
    ) {
        match action {
            ActionView::Refresh => self.load(connected),
            ActionView::JumpToPath => self.jump(typed, connected),
            ActionView::ClickEntry(index) => {
                let (browser, effects) = self.click(index, connected);
                (browser, Effects { focus: true, ..effects })
            },
            ActionView::OpenEntry(index) => {
                let (browser, effects) = self.open_row(index, connected);
                (browser, Effects { focus: true, ..effects })
            },
            ActionView::ToggleDirectory(path) => self.toggle(path, connected),
            ActionView::SelectPreviousItem => self.select_previous(),
            ActionView::SelectNextItem => self.select_next(),
            ActionView::ExpandSelectedItem => self.expand_selected(connected),
            ActionView::CollapseSelectedItem => self.collapse_selected(connected),
            ActionView::ExecuteSelectedItem => self.open_selected(connected),
            ActionView::OpenContextMenu { index, position } => self.open_menu(index, position),
            ActionView::DismissContextMenu => (
                self.without_menu(),
                Effects::<Seq<char>>::redraw(),
            ),
            ActionView::CopyPath(path) => self.copy(path),
            ActionView::JumpToDirectory(path) => self.without_menu().go_to(path, connected),
            ActionView::Download(path) => {
                let (browser, effects) = self.without_menu().choose_download(path, connected);
                (browser, Effects { notify: true, ..effects })
            },
            ActionView::UploadFiles(path) => {
                let (browser, effects) = self.without_menu().choose_upload(path, false, connected);
                (browser, Effects { notify: true, ..effects })
            },
            ActionView::UploadFolder(path) => {
                let (browser, effects) = self.without_menu().choose_upload(path, true, connected);
                (browser, Effects { notify: true, ..effects })
            },
        }
    }

    /// Whether the row `index` can be opened.
    pub open spec fn can_open(self, index: usize) -> bool {
        index < self.entries.len() && self.entries[index as int].kind is Directory
            ==> self.can_toggle(self.entries[index as int].path@)
    }

    /// Whether the user's `action` can be done.
    pub open spec fn can_act(self, action: ActionView) -> bool {
        match action {
            ActionView::ClickEntry(index) => self.can_open(index),
            ActionView::OpenEntry(index) => self.can_open(index),
            ActionView::ToggleDirectory(path) => self.can_toggle(path),
            ActionView::ExpandSelectedItem => self.selected matches Some(index) ==> self.can_open(
                index,
            ),
            ActionView::ExecuteSelectedItem => self.selected matches Some(index) ==> self.can_open(
                index,
            ),
            _ => true,
        }
    }
}

impl Browser {
    /// Whether the rows are just those that belong to the roots among them and to what is
    /// expanded and listed.
    pub open spec fn settled(self) -> bool {
        self.entries == rows(roots(self.entries), self.expanded, self.loaded)
    }
}

proof fn rebuilding_settles(browser: Browser)
    requires
        listings_indented(browser.loaded),
    ensures
        browser.rebuilt().settled(),
{
    rows_keep_roots(browser.entries, browser.expanded, browser.loaded);
}

proof fn toggling_settles(browser: Browser, path: Seq<char>, connected: bool)
    requires
        browser.wf(),
        browser.can_toggle(path),
        browser.settled(),
    ensures
        browser.toggle(path, connected).0.settled(),
{
    if browser.expanded.contains(path) {
        rebuilding_settles(Browser { expanded: browser.expanded.remove(path), ..browser });
    } else {
        let expanded = browser.expanded.insert(path);
        if browser.loaded.contains_key(path) {
            rebuilding_settles(Browser { expanded, ..browser });
        } else {
            unlisted_directories_do_not_matter(
                roots(browser.entries),
                browser.expanded,
                expanded,
                browser.loaded,
            );
        }
    }
}

/// Whatever the user does, the rows stay those that belong to what is expanded and listed.
pub proof fn actions_keep_rows(
    browser: Browser,
    action: ActionView,
    connected: bool,
    typed: Seq<char>,
)
    requires
        browser.wf(),
        browser.can_act(action),
        browser.settled(),
    ensures
        browser.act(action, connected, typed).0.settled(),
{
    match action {
        ActionView::ClickEntry(index) | ActionView::OpenEntry(index) => {
            if index < browser.entries.len() && browser.entries[index as int].kind is Directory {
                let selected = Browser { selected: Some(index), ..browser };
                toggling_settles(selected, browser.entries[index as int].path@, connected);
            }
        },
        ActionView::ToggleDirectory(path) => {
            toggling_settles(browser, path, connected);
        },
        ActionView::ExpandSelectedItem | ActionView::CollapseSelectedItem => {
            if let Some(path) = browser.selected_directory() {
                if browser.can_toggle(path) {
                    toggling_settles(browser, path, connected);
                }
            }
        },
        ActionView::ExecuteSelectedItem => {
            if let Some(path) = browser.selected_directory() {
                toggling_settles(browser, path, connected);
            }
        },
        _ => {},
    }
}

/// A listing of the current directory, which holds no indented entries, leaves the rows those that
/// belong to what is expanded and listed, and so does an error in its place.
pub proof fn listing_keeps_rows(
    browser: Browser,
    listing: Result<(Seq<char>, Seq<ServerFileBrowserEntry>), Status<Seq<char>>>,
)
    requires
        browser.settled(),
        listing matches Ok((path, entries)) ==> forall|i: int|
            0 <= i < entries.len() ==> (#[trigger] entries[i]).depth == 0,
    ensures
        browser.finish_load(listing).0.settled(),
{
    if let Ok((path, entries)) = listing {
        all_are_roots(entries);
        closed_rows(entries, Set::empty(), Map::empty());
    }
}

/// A listing of an expanded directory leaves the rows those that belong to what is expanded and
/// listed, and so does an error in its place.
pub proof fn expansion_keeps_rows(
    browser: Browser,
    listing: Result<(Seq<char>, Seq<ServerFileBrowserEntry>), Status<Seq<char>>>,
    depth: usize,
)
    requires
        browser.wf(),
        browser.settled(),
        depth > 0,
    ensures
        browser.finish_toggle(listing, depth).0.settled(),
{
    if let Ok((path, entries)) = listing {
        rebuilding_settles(
            Browser {
                loaded: browser.loaded.insert(path, all_at_depth(entries, depth)),
                loading: false,
                ..browser
            },
        );
    }
}

/// Nothing else that happens changes the rows.
pub proof fn other_steps_leave_rows(
    browser: Browser,
    host_id: Seq<char>,
    path: Seq<char>,
    session: Option<u64>,
    resolved: Result<(Seq<char>, FileSystemEntryKind), Status<Seq<char>>>,
    resolved_for: Option<Seq<char>>,
    result: Result<(), Status<Seq<char>>>,
    event: EditorEvent,
    typed: Seq<char>,
    index: usize,
    flag: bool,
    connected: bool,
)
    requires
        browser.settled(),
    ensures
        browser.set_remote_root(host_id, path, session, connected).0.settled(),
        browser.finish_resolve(resolved, resolved_for, connected).0.settled(),
        browser.finish_transfer(result, connected).0.settled(),
        browser.edit(event, typed, connected).0.settled(),
        browser.focus_panel().0.settled(),
        browser.focus(flag).0.settled(),
        browser.menu_event(flag).0.settled(),
        browser.select(index).0.settled(),
{
}

proof fn all_are_roots(entries: Seq<ServerFileBrowserEntry>)
    requires
        forall|i: int| 0 <= i < entries.len() ==> (#[trigger] entries[i]).depth == 0,
    ensures
        roots(entries) == entries,
    decreases entries.len(),
{
    reveal(Seq::filter);
    if entries.len() > 0 {
        assert forall|i: int| 0 <= i < entries.drop_last().len() implies (
        #[trigger] entries.drop_last()[i]).depth == 0 by {
            assert(entries.drop_last()[i] == entries[i]);
        }
        all_are_roots(entries.drop_last());
        assert(entries.last() == entries[entries.len() - 1]);
        assert(entries.drop_last().push(entries.last()) == entries);
    }
}

/// Expanding a directory hides no row and leaves the order of the rows as it is, and the selected
/// path stays selected.
pub proof fn expanding_hides_nothing(browser: Browser, path: Seq<char>, connected: bool)
    requires
        browser.wf(),
        browser.settled(),
        browser.can_toggle(path),
        !browser.expanded.contains(path),
        browser.toggle(path, connected).0.entries.len() <= usize::MAX,
    ensures
        ({
            let expanded = browser.toggle(path, connected).0;
            &&& is_subsequence(browser.entries, expanded.entries)
            &&& browser.selected is Some ==> expanded.selected_path() == browser.selected_path()
        }),
{
    let expanded = browser.expanded.insert(path);
    if browser.loaded.contains_key(path) {
        let shown = rows(roots(browser.entries), expanded, browser.loaded);
        expanding_keeps_order(
            roots(browser.entries),
            browser.expanded,
            expanded,
            browser.loaded,
        );
        subsequence_is_contained(browser.entries, shown);
        if let Some(row) = browser.selected {
            assert(shown.contains(browser.entries[row as int]));
            shown_path_stays_selected(shown, browser.entries[row as int].path@, browser.selected);
        }
    } else {
        expanding_keeps_order(
            roots(browser.entries),
            browser.expanded,
            browser.expanded,
            browser.loaded,
        );
    }
}

/// Collapsing a directory again undoes expanding it: the same rows are shown, and the same path
/// is selected. Neither asks for any work, as the directory has been listed.
pub proof fn collapsing_undoes_expanding(browser: Browser, path: Seq<char>, connected: bool)
    requires
        browser.wf(),
        browser.settled(),
        browser.can_toggle(path),
        !browser.expanded.contains(path),
        browser.loaded.contains_key(path),
        browser.toggle(path, connected).0.entries.len() <= usize::MAX,
    ensures
        ({
            let (expanded, effects) = browser.toggle(path, connected);
            let (again, more_effects) = expanded.toggle(path, connected);
            &&& again.entries == browser.entries
            &&& again.expanded == browser.expanded
            &&& again.loaded == browser.loaded
            &&& browser.selected is Some ==> again.selected_path() == browser.selected_path()
            &&& effects == Effects::<Seq<char>>::redraw()
            &&& more_effects == Effects::<Seq<char>>::redraw()
        }),
{
    let expanded = browser.toggle(path, connected).0;
    expanding_hides_nothing(browser, path, connected);
    assert(expanded.expanded.remove(path) =~= browser.expanded);
    rows_keep_roots(browser.entries, expanded.expanded, browser.loaded);
    if let Some(row) = browser.selected {
        shown_path_stays_selected(
            browser.entries,
            browser.entries[row as int].path@,
            expanded.selected,
        );
    }
}

/// Collapsing a directory shows no new row and leaves the order of the rows as it is.
pub proof fn collapsing_shows_nothing_new(browser: Browser, path: Seq<char>, connected: bool)
    requires
        browser.wf(),
        browser.settled(),
        browser.expanded.contains(path),
    ensures
        is_subsequence(browser.toggle(path, connected).0.entries, browser.entries),
        browser.toggle(path, connected).0.entries.len() <= browser.entries.len(),
{
    let fewer = browser.expanded.remove(path);
    let shown = rows(roots(browser.entries), fewer, browser.loaded);
    expanding_keeps_order(roots(browser.entries), fewer, browser.expanded, browser.loaded);
    subsequence_is_contained(shown, browser.entries);
}

/// Expanding a directory again undoes collapsing it: the same rows are shown, and a selected path
/// that was not hidden in between is selected. Neither asks for any work, as the directory has
/// been listed.
pub proof fn expanding_undoes_collapsing(browser: Browser, path: Seq<char>, connected: bool)
    requires
        browser.wf(),
        browser.settled(),
        browser.expanded.contains(path),
        browser.loaded.contains_key(path),
    ensures
        ({
            let (collapsed, effects) = browser.toggle(path, connected);
            let (again, more_effects) = collapsed.toggle(path, connected);
            &&& collapsed.child_depth(path) <= usize::MAX ==> collapsed.can_toggle(path)
            &&& again.entries == browser.entries
            &&& again.expanded == browser.expanded
            &&& again.loaded == browser.loaded
            &&& browser.selected matches Some(row) ==> collapsed.entries.contains(
                browser.entries[row as int],
            ) ==> again.selected_path() == browser.selected_path()
            &&& effects == Effects::<Seq<char>>::redraw()
            &&& more_effects == Effects::<Seq<char>>::redraw()
        }),
{
    let collapsed = browser.toggle(path, connected).0;
    collapsing_shows_nothing_new(browser, path, connected);
    assert(collapsed.expanded.insert(path) =~= browser.expanded);
    rows_keep_roots(browser.entries, collapsed.expanded, browser.loaded);
    if let Some(row) = browser.selected {
        let selected = browser.entries[row as int];
        if collapsed.entries.contains(selected) {
            shown_path_stays_selected(collapsed.entries, selected.path@, browser.selected);
            shown_path_stays_selected(browser.entries, selected.path@, collapsed.selected);
        }
    }
}

/// Showing what is shown already asks nothing of the remote host.
pub proof fn showing_again_does_nothing(
    browser: Browser,
    host_id: Seq<char>,
    path: Seq<char>,
    session: Option<u64>,
    connected: bool,
)
    ensures
        ({
            let shown = browser.set_remote_root(host_id, path, session, connected).0;
            shown.set_remote_root(host_id, path, session, connected) == (
                shown,
                Effects::<Seq<char>>::nothing(),
            )
        }),
{
}

/// Whether `work` asks something of the remote host that the browser waits for.
pub open spec fn is_awaited(work: Work<Seq<char>>) -> bool {
    work is ListCurrent || work is ListChildren || work is Resolve
}

/// Whether `work` cannot be done without the remote host.
pub open spec fn is_remote(work: Work<Seq<char>>) -> bool {
    !(work is Nothing || work is Copy)
}

/// Whether a step asks nothing of a host that cannot be reached, and shows that it waits where it
/// asks something.
pub open spec fn asks_reachable(
    before: Browser,
    connected: bool,
    step: (Browser, Effects<Seq<char>>),
) -> bool {
    &&& is_awaited(step.1.work) ==> step.0.loading
    &&& before.route(connected) is None ==> !is_remote(step.1.work)
}

proof fn toggling_asks_reachable(browser: Browser, path: Seq<char>, connected: bool)
    ensures
        asks_reachable(browser, connected, browser.toggle(path, connected)),
{
}

proof fn opening_asks_reachable(browser: Browser, index: usize, connected: bool)
    ensures
        asks_reachable(browser, connected, browser.click(index, connected)),
        asks_reachable(browser, connected, browser.open_row(index, connected)),
{
    if index < browser.entries.len() {
        let selected = Browser { selected: Some(index), ..browser };
        toggling_asks_reachable(selected, browser.entries[index as int].path@, connected);
    }
}

/// The browser shows that it waits whenever the user's action asks something of the remote host,
/// and a host that cannot be reached is asked nothing.
pub proof fn actions_ask_only_reachable_hosts(
    browser: Browser,
    action: ActionView,
    connected: bool,
    typed: Seq<char>,
)
    ensures
        asks_reachable(browser, connected, browser.act(action, connected, typed)),
{
    match action {
        ActionView::ClickEntry(index) | ActionView::OpenEntry(index) => {
            opening_asks_reachable(browser, index, connected);
        },
        ActionView::ToggleDirectory(path) => {
            toggling_asks_reachable(browser, path, connected);
        },
        ActionView::ExpandSelectedItem | ActionView::CollapseSelectedItem => {
            if let Some(path) = browser.selected_directory() {
                toggling_asks_reachable(browser, path, connected);
            }
        },
        ActionView::ExecuteSelectedItem => {
            if let Some(index) = browser.selected {
                opening_asks_reachable(browser, index, connected);
            }
        },
        _ => {},
    }
}

/// The same holds of what else makes the browser ask something of the remote host.
pub proof fn other_steps_ask_only_reachable_hosts(
    browser: Browser,
    host_id: Seq<char>,
    path: Seq<char>,
    session: Option<u64>,
    resolved: Result<(Seq<char>, FileSystemEntryKind), Status<Seq<char>>>,
    resolved_for: Option<Seq<char>>,
    result: Result<(), Status<Seq<char>>>,
    event: EditorEvent,
    typed: Seq<char>,
    connected: bool,
)
    ensures
        asks_reachable(
            Browser { host_id: Some(host_id), session, ..browser },
            connected,
            browser.set_remote_root(host_id, path, session, connected),
        ),
        asks_reachable(
            browser,
            connected,
            browser.finish_resolve(resolved, resolved_for, connected),
        ),
        asks_reachable(browser, connected, browser.finish_transfer(result, connected)),
        asks_reachable(browser, connected, browser.edit(event, typed, connected)),
{
}

/// Where every listed entry has a longer path than its directory, every directory can be expanded
/// and collapsed, and a listing of such entries can be taken over.
pub proof fn growing_listings_fit(
    browser: Browser,
    path: Seq<char>,
    entries: Seq<ServerFileBrowserEntry>,
    depth: usize,
)
    requires
        browser.wf(),
        extends_directories(browser.loaded),
        extends_directory(path, entries),
        browser.child_depth(path) <= usize::MAX,
    ensures
        browser.can_toggle(path),
        browser.can_finish_toggle(Ok((path, entries)), depth),
        extends_directories(browser.finish_toggle(Ok((path, entries)), depth).0.loaded),
{
    let children = all_at_depth(entries, depth);
    let loaded = browser.loaded.insert(path, children);
    assert(extends_directory(path, children)) by {
        assert forall|i: int| 0 <= i < children.len() implies (#[trigger] children[i]).path@.len()
            > path.len() by {
            assert(children[i].path@ == entries[i].path@);
        }
    }
    assert forall|directory: Seq<char>| #[trigger]
        loaded.contains_key(directory) implies extends_directory(directory, loaded[directory]) by {
        if directory != path {
            assert(browser.loaded.contains_key(directory));
        }
    }
    growing_paths_end(roots(browser.entries), browser.expanded.insert(path), browser.loaded);
    growing_paths_end(roots(browser.entries), browser.expanded, loaded);
}

} // verus!
