//! What the user can do in the browser, and what the browser asks of its surroundings.

use crate::status::Message;
use crate::text::{opt_text, same_text};
use pathfinder_geometry::vector::Vector2F;
use vstd::prelude::*;

verus! {

/// The outside type `pathfinder_geometry::vector::Vector2F`, a point on the screen. It is only
/// carried through; nothing is claimed of what it holds.
#[verifier::external_type_specification]
#[verifier::external_body]
pub struct ExVector2F(pathfinder_geometry::vector::Vector2F);

/// What the user can do.
#[derive(Debug)]
pub enum ServerFileBrowserAction {
    Refresh,
    JumpToPath,
    ClickEntry(usize),
    OpenEntry(usize),
    ToggleDirectory(String),
    SelectPreviousItem,
    SelectNextItem,
    ExpandSelectedItem,
    CollapseSelectedItem,
    ExecuteSelectedItem,
    OpenContextMenu { index: usize, position: Vector2F },
    DismissContextMenu,
    CopyPath(String),
    JumpToDirectory(String),
    Download(String),
    UploadFiles(String),
    UploadFolder(String),
}

impl Clone for ServerFileBrowserAction {
    fn clone(&self) -> (action: Self)
        ensures
            action == *self,
    {
        match self {
            ServerFileBrowserAction::Refresh => ServerFileBrowserAction::Refresh,
            ServerFileBrowserAction::JumpToPath => ServerFileBrowserAction::JumpToPath,
            ServerFileBrowserAction::ClickEntry(index) => ServerFileBrowserAction::ClickEntry(*index),
            ServerFileBrowserAction::OpenEntry(index) => ServerFileBrowserAction::OpenEntry(*index),
            ServerFileBrowserAction::ToggleDirectory(path) => ServerFileBrowserAction::ToggleDirectory(path.clone()),
            ServerFileBrowserAction::SelectPreviousItem => ServerFileBrowserAction::SelectPreviousItem,
            ServerFileBrowserAction::SelectNextItem => ServerFileBrowserAction::SelectNextItem,
            ServerFileBrowserAction::ExpandSelectedItem => ServerFileBrowserAction::ExpandSelectedItem,
            ServerFileBrowserAction::CollapseSelectedItem => ServerFileBrowserAction::CollapseSelectedItem,
            ServerFileBrowserAction::ExecuteSelectedItem => ServerFileBrowserAction::ExecuteSelectedItem,
            ServerFileBrowserAction::OpenContextMenu {
                index,
                position,
            } => ServerFileBrowserAction::OpenContextMenu { index: *index, position: *position },
            ServerFileBrowserAction::DismissContextMenu => ServerFileBrowserAction::DismissContextMenu,
            ServerFileBrowserAction::CopyPath(path) => ServerFileBrowserAction::CopyPath(path.clone()),
            ServerFileBrowserAction::JumpToDirectory(path) => ServerFileBrowserAction::JumpToDirectory(path.clone()),
            ServerFileBrowserAction::Download(path) => ServerFileBrowserAction::Download(path.clone()),
            ServerFileBrowserAction::UploadFiles(path) => ServerFileBrowserAction::UploadFiles(path.clone()),
            ServerFileBrowserAction::UploadFolder(path) => ServerFileBrowserAction::UploadFolder(path.clone()),
        }
    }
}

/// An action with its path taken as a sequence of characters.
pub enum ActionView {
    Refresh,
    JumpToPath,
    ClickEntry(usize),
    OpenEntry(usize),
    ToggleDirectory(Seq<char>),
    SelectPreviousItem,
    SelectNextItem,
    ExpandSelectedItem,
    CollapseSelectedItem,
    ExecuteSelectedItem,
    OpenContextMenu { index: usize, position: Vector2F },
    DismissContextMenu,
    CopyPath(Seq<char>),
    JumpToDirectory(Seq<char>),
    Download(Seq<char>),
    UploadFiles(Seq<char>),
    UploadFolder(Seq<char>),
}

impl View for ServerFileBrowserAction {
    type V = ActionView;

    open spec fn view(&self) -> ActionView {
        match self {
            ServerFileBrowserAction::Refresh => ActionView::Refresh,
            ServerFileBrowserAction::JumpToPath => ActionView::JumpToPath,
            ServerFileBrowserAction::ClickEntry(index) => ActionView::ClickEntry(*index),
            ServerFileBrowserAction::OpenEntry(index) => ActionView::OpenEntry(*index),
            ServerFileBrowserAction::ToggleDirectory(path) => ActionView::ToggleDirectory(path@),
            ServerFileBrowserAction::SelectPreviousItem => ActionView::SelectPreviousItem,
            ServerFileBrowserAction::SelectNextItem => ActionView::SelectNextItem,
            ServerFileBrowserAction::ExpandSelectedItem => ActionView::ExpandSelectedItem,
            ServerFileBrowserAction::CollapseSelectedItem => ActionView::CollapseSelectedItem,
            ServerFileBrowserAction::ExecuteSelectedItem => ActionView::ExecuteSelectedItem,
            ServerFileBrowserAction::OpenContextMenu {
                index,
                position,
            } => ActionView::OpenContextMenu { index: *index, position: *position },
            ServerFileBrowserAction::DismissContextMenu => ActionView::DismissContextMenu,
            ServerFileBrowserAction::CopyPath(path) => ActionView::CopyPath(path@),
            ServerFileBrowserAction::JumpToDirectory(path) => ActionView::JumpToDirectory(path@),
            ServerFileBrowserAction::Download(path) => ActionView::Download(path@),
            ServerFileBrowserAction::UploadFiles(path) => ActionView::UploadFiles(path@),
            ServerFileBrowserAction::UploadFolder(path) => ActionView::UploadFolder(path@),
        }
    }
}

/// A file on a remote host.
#[derive(Debug)]
pub struct RemotePath<H, P> {
    pub host_id: H,
    /// The path in its standardized form.
    pub path: P,
}

impl<H: Clone, P: Clone> Clone for RemotePath<H, P> {
    fn clone(&self) -> (remote_path: Self)
        ensures
            cloned(self.host_id, remote_path.host_id),
            cloned(self.path, remote_path.path),
    {
        RemotePath { host_id: self.host_id.clone(), path: self.path.clone() }
    }
}

/// What the browser tells the workspace around it. How hosts and standardized paths are written
/// is left to the workspace.
#[derive(Debug)]
pub enum ServerFileBrowserEvent<H, P> {
    OpenRemoteFile { remote_path: RemotePath<H, P> },
}

impl<H: Clone, P: Clone> Clone for ServerFileBrowserEvent<H, P> {
    fn clone(&self) -> (event: Self)
        ensures
            match (*self, event) {
                (
                    ServerFileBrowserEvent::OpenRemoteFile { remote_path },
                    ServerFileBrowserEvent::OpenRemoteFile { remote_path: copy },
                ) => cloned(remote_path.host_id, copy.host_id) && cloned(
                    remote_path.path,
                    copy.path,
                ),
            },
    {
        match self {
            ServerFileBrowserEvent::OpenRemoteFile {
                remote_path,
            } => ServerFileBrowserEvent::OpenRemoteFile { remote_path: remote_path.clone() },
        }
    }
}

/// The event that opens a file: it takes a host, and a path that could be standardized.
pub fn open_event<H, P>(host_id: Option<H>, standardized: Option<P>) -> (event: Option<
    ServerFileBrowserEvent<H, P>,
>)
    ensures
        match (host_id, standardized) {
            (Some(host_id), Some(path)) => {
                &&& event matches Some(ServerFileBrowserEvent::OpenRemoteFile { remote_path })
                &&& remote_path == RemotePath { host_id, path }
            },
            _ => event is None,
        },
{
    match (host_id, standardized) {
        (Some(host_id), Some(path)) => Some(
            ServerFileBrowserEvent::OpenRemoteFile { remote_path: RemotePath { host_id, path } },
        ),
        _ => None,
    }
}

/// What the key named `key` does.
pub open spec fn key_meaning(key: Seq<char>) -> Option<ActionView> {
    if key == "up"@ {
        Some(ActionView::SelectPreviousItem)
    } else if key == "down"@ {
        Some(ActionView::SelectNextItem)
    } else if key == "right"@ {
        Some(ActionView::ExpandSelectedItem)
    } else if key == "left"@ {
        Some(ActionView::CollapseSelectedItem)
    } else if key == "enter"@ {
        Some(ActionView::ExecuteSelectedItem)
    } else if key == "escape"@ {
        Some(ActionView::DismissContextMenu)
    } else {
        None
    }
}

/// What the key named `key` does; a key without a meaning here is left to the parent element.
pub fn key_action(key: &str) -> (action: Option<ServerFileBrowserAction>)
    ensures
        match action {
            Some(action) => key_meaning(key@) == Some(action@),
            None => key_meaning(key@) is None,
        },
{
    if same_text(key, "up") {
        Some(ServerFileBrowserAction::SelectPreviousItem)
    } else if same_text(key, "down") {
        Some(ServerFileBrowserAction::SelectNextItem)
    } else if same_text(key, "right") {
        Some(ServerFileBrowserAction::ExpandSelectedItem)
    } else if same_text(key, "left") {
        Some(ServerFileBrowserAction::CollapseSelectedItem)
    } else if same_text(key, "enter") {
        Some(ServerFileBrowserAction::ExecuteSelectedItem)
    } else if same_text(key, "escape") {
        Some(ServerFileBrowserAction::DismissContextMenu)
    } else {
        None
    }
}

/// One line of the context menu.
#[derive(Debug)]
pub struct MenuEntry {
    pub label: Message,
    pub action: ServerFileBrowserAction,
}

impl Clone for MenuEntry {
    fn clone(&self) -> (entry: Self)
        ensures
            entry == *self,
    {
        MenuEntry { label: self.label, action: self.action.clone() }
    }
}

/// A line of the context menu with its action's path taken as a sequence of characters.
pub struct MenuEntryView {
    pub label: Message,
    pub action: ActionView,
}

impl View for MenuEntry {
    type V = MenuEntryView;

    open spec fn view(&self) -> MenuEntryView {
        MenuEntryView { label: self.label, action: self.action@ }
    }
}

/// The pictures that the browser shows.
#[derive(Clone, Copy, Debug, PartialEq, Eq, Structural)]
pub enum Icon {
    Refresh,
    UploadCloud,
    Folder,
    File,
    ChevronDown,
    ChevronRight,
}

/// One button of the toolbar.
#[derive(Debug)]
pub struct ToolbarButton {
    pub icon: Icon,
    pub action: ServerFileBrowserAction,
}

impl Clone for ToolbarButton {
    fn clone(&self) -> (button: Self)
        ensures
            button == *self,
    {
        ToolbarButton { icon: self.icon, action: self.action.clone() }
    }
}

/// A button of the toolbar with its action's path taken as a sequence of characters.
pub struct ToolbarButtonView {
    pub icon: Icon,
    pub action: ActionView,
}

impl View for ToolbarButton {
    type V = ToolbarButtonView;

    open spec fn view(&self) -> ToolbarButtonView {
        ToolbarButtonView { icon: self.icon, action: self.action@ }
    }
}

/// What happens in the field in which the user types a path.
#[derive(Clone, Copy, Debug, PartialEq, Eq, Structural)]
pub enum EditorEvent {
    Enter,
    Escape,
    Other,
}

/// How the remote host is reached: through its daemon, or through a session on it.
#[derive(Clone, Copy, Debug, PartialEq, Eq, Structural)]
pub enum Route {
    Client,
    Session(u64),
}

/// Work that is done outside of the browser and reported back to it.
#[derive(Debug)]
pub enum Work<T> {
    Nothing,
    /// List `path`, for `finish_load`.
    ListCurrent { route: Route, path: T },
    /// List `path`, for `finish_toggle` with the same `depth`.
    ListChildren { route: Route, path: T, depth: usize },
    /// Find out what `path` names, for `finish_resolve_and_open` with the same `host_id`.
    Resolve { route: Route, path: T, host_id: Option<T> },
    /// Put `path` on the clipboard.
    Copy { path: T },
    /// Let the user choose local files, or a folder, and upload them, for `finish_transfer`.
    PickUpload { remote_directory: T, folder: bool },
    /// Let the user choose a local folder and download a directory into it, for
    /// `finish_transfer`.
    PickDownloadFolder { remote_path: T },
    /// Let the user choose a local file and download a file to it, for `finish_transfer`.
    PickDownloadFile { remote_path: T, default_filename: T },
}

/// What the browser asks of its surroundings.
#[derive(Debug)]
pub struct Effects<T> {
    /// Draw the browser anew.
    pub notify: bool,
    /// Give the browser the focus.
    pub focus: bool,
    /// Put the current path into the field in which the user types a path.
    pub sync_editor: bool,
    /// Show the list from its start.
    pub reset_scroll: bool,
    /// Open this file, given by its host and its path.
    pub open: Option<(T, T)>,
    pub work: Work<T>,
}

impl View for Work<String> {
    type V = Work<Seq<char>>;

    open spec fn view(&self) -> Work<Seq<char>> {
        match self {
            Work::Nothing => Work::Nothing,
            Work::ListCurrent { route, path } => Work::ListCurrent { route: *route, path: path@ },
            Work::ListChildren { route, path, depth } => Work::ListChildren {
                route: *route,
                path: path@,
                depth: *depth,
            },
            Work::Resolve { route, path, host_id } => Work::Resolve {
                route: *route,
                path: path@,
                host_id: opt_text(*host_id),
            },
            Work::Copy { path } => Work::Copy { path: path@ },
            Work::PickUpload { remote_directory, folder } => Work::PickUpload {
                remote_directory: remote_directory@,
                folder: *folder,
            },
            Work::PickDownloadFolder { remote_path } => Work::PickDownloadFolder {
                remote_path: remote_path@,
            },
            Work::PickDownloadFile { remote_path, default_filename } => Work::PickDownloadFile {
                remote_path: remote_path@,
                default_filename: default_filename@,
            },
        }
    }
}

impl View for Effects<String> {
    type V = Effects<Seq<char>>;

    open spec fn view(&self) -> Effects<Seq<char>> {
        Effects {
            notify: self.notify,
            focus: self.focus,
            sync_editor: self.sync_editor,
            reset_scroll: self.reset_scroll,
            open: match self.open {
                Some((host_id, path)) => Some((host_id@, path@)),
                None => None,
            },
            work: self.work@,
        }
    }
}

impl Effects<Seq<char>> {
    /// Nothing is to be done.
    pub open spec fn nothing() -> Self {
        Effects {
            notify: false,
            focus: false,
            sync_editor: false,
            reset_scroll: false,
            open: None,
            work: Work::Nothing,
        }
    }

    /// The browser is to be drawn anew.
    pub open spec fn redraw() -> Self {
        Effects { notify: true, ..Self::nothing() }
    }

    /// The browser is to be drawn anew, and `work` is to be done.
    pub open spec fn redraw_and(work: Work<Seq<char>>) -> Self {
        Effects { notify: true, work, ..Self::nothing() }
    }
}

impl Effects<String> {
    /// Nothing is to be done.
    pub fn none() -> (effects: Self)
        ensures
            effects@ == Effects::<Seq<char>>::nothing(),
    {
        Effects {
            notify: false,
            focus: false,
            sync_editor: false,
            reset_scroll: false,
            open: None,
            work: Work::Nothing,
        }
    }

    /// The browser is to be drawn anew.
    pub fn notify() -> (effects: Self)
        ensures
            effects@ == Effects::<Seq<char>>::redraw(),
    {
        let mut effects: Effects<String> = Self::none();
        effects.notify = true;
        effects
    }

    /// The browser is to be drawn anew, and `work` is to be done.
    pub fn notify_and(work: Work<String>) -> (effects: Self)
        ensures
            effects@ == Effects::<Seq<char>>::redraw_and(work@),
    {
        let mut effects: Effects<String> = Self::notify();
        effects.work = work;
        effects
    }
}

/// Taking an action by the characters of its path keeps it.
pub proof fn actions_are_taken_whole(action: ServerFileBrowserAction)
    ensures
        action is Refresh ==> action@ is Refresh,
        action is JumpToPath ==> action@ is JumpToPath,
        action is SelectPreviousItem ==> action@ is SelectPreviousItem,
        action is SelectNextItem ==> action@ is SelectNextItem,
        action is ExpandSelectedItem ==> action@ is ExpandSelectedItem,
        action is CollapseSelectedItem ==> action@ is CollapseSelectedItem,
        action is ExecuteSelectedItem ==> action@ is ExecuteSelectedItem,
        action is DismissContextMenu ==> action@ is DismissContextMenu,
        action matches ServerFileBrowserAction::ClickEntry(index) ==> action@ == ActionView::ClickEntry(index),
        action matches ServerFileBrowserAction::OpenEntry(index) ==> action@ == ActionView::OpenEntry(index),
        action matches ServerFileBrowserAction::ToggleDirectory(path) ==> action@ == ActionView::ToggleDirectory(path@),
        action matches ServerFileBrowserAction::CopyPath(path) ==> action@ == ActionView::CopyPath(path@),
        action matches ServerFileBrowserAction::JumpToDirectory(path) ==> action@ == ActionView::JumpToDirectory(path@),
        action matches ServerFileBrowserAction::Download(path) ==> action@ == ActionView::Download(path@),
        action matches ServerFileBrowserAction::UploadFiles(path) ==> action@ == ActionView::UploadFiles(path@),
        action matches ServerFileBrowserAction::UploadFolder(path) ==> action@ == ActionView::UploadFolder(path@),
        action matches ServerFileBrowserAction::OpenContextMenu { index, position } ==> action@
            == (ActionView::OpenContextMenu { index, position }),
{
}

/// Taking lines of the menu and buttons by the characters of their paths keeps them.
pub proof fn menus_and_buttons_are_taken_whole(entry: MenuEntry, button: ToolbarButton)
    ensures
        entry@.label == entry.label,
        entry@.action == entry.action@,
        button@.icon == button.icon,
        button@.action == button.action@,
{
}

/// Taking work by the characters of its paths keeps it.
pub proof fn work_is_taken_whole(work: Work<String>)
    ensures
        work is Nothing <==> work@ is Nothing,
        work matches Work::ListCurrent { route, path } ==> work@ == (Work::ListCurrent {
            route,
            path: path@,
        }),
        work matches Work::ListChildren { route, path, depth } ==> work@ == (Work::ListChildren {
            route,
            path: path@,
            depth,
        }),
        work matches Work::Resolve { route, path, host_id } ==> work@ == (Work::Resolve {
            route,
            path: path@,
            host_id: match host_id {
                Some(host_id) => Some(host_id@),
                None => None,
            },
        }),
        work matches Work::Copy { path } ==> work@ == (Work::Copy { path: path@ }),
        work matches Work::PickUpload { remote_directory, folder } ==> work@ == (Work::PickUpload {
            remote_directory: remote_directory@,
            folder,
        }),
        work matches Work::PickDownloadFolder { remote_path } ==> work@ == (
        Work::PickDownloadFolder { remote_path: remote_path@ }),
        work matches Work::PickDownloadFile { remote_path, default_filename } ==> work@ == (
        Work::PickDownloadFile {
            remote_path: remote_path@,
            default_filename: default_filename@,
        }),
{
}

/// Taking effects by the characters of their paths keeps them.
pub proof fn effects_are_taken_whole(effects: Effects<String>)
    ensures
        effects@.notify == effects.notify,
        effects@.focus == effects.focus,
        effects@.sync_editor == effects.sync_editor,
        effects@.reset_scroll == effects.reset_scroll,
        effects.open matches Some((host_id, path)) ==> effects@.open == Some((host_id@, path@)),
        effects.open is None ==> effects@.open is None,
        effects@.work == effects.work@,
{
}

/// Nothing is nothing, and a redraw asks for nothing but to be drawn anew, and for its work.
pub proof fn redrawing_asks_for_nothing_else(work: Work<Seq<char>>)
    ensures
        ({
            let nothing = Effects::<Seq<char>>::nothing();
            let redraw = Effects::<Seq<char>>::redraw();
            let with_work = Effects::<Seq<char>>::redraw_and(work);
            &&& !nothing.notify && redraw.notify && with_work.notify
            &&& !nothing.focus && !redraw.focus && !with_work.focus
            &&& !nothing.sync_editor && !redraw.sync_editor && !with_work.sync_editor
            &&& !nothing.reset_scroll && !redraw.reset_scroll && !with_work.reset_scroll
            &&& nothing.open is None && redraw.open is None && with_work.open is None
            &&& nothing.work is Nothing && redraw.work is Nothing && with_work.work == work
        }),
{
}

/// Six keys have a meaning, each one of its own, and no other key has.
pub proof fn six_keys_have_a_meaning(key: Seq<char>)
    ensures
        key_meaning("up"@) == Some(ActionView::SelectPreviousItem),
        key_meaning("down"@) == Some(ActionView::SelectNextItem),
        key_meaning("right"@) == Some(ActionView::ExpandSelectedItem),
        key_meaning("left"@) == Some(ActionView::CollapseSelectedItem),
        key_meaning("enter"@) == Some(ActionView::ExecuteSelectedItem),
        key_meaning("escape"@) == Some(ActionView::DismissContextMenu),
        key != "up"@ && key != "down"@ && key != "right"@ && key != "left"@ && key != "enter"@ && key
            != "escape"@ ==> key_meaning(key) is None,
{
    reveal_strlit("up");
    reveal_strlit("down");
    reveal_strlit("right");
    reveal_strlit("left");
    reveal_strlit("enter");
    reveal_strlit("escape");
    assert("up"@[0] == 'u' && "down"@[0] == 'd' && "right"@[0] == 'r' && "left"@[0] == 'l');
    assert("enter"@[1] == 'n' && "escape"@[1] == 's');
    assert("enter"@[0] == 'e' && "escape"@[0] == 'e');
}

} // verus!
