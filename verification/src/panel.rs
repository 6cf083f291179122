//! What the browser's panel shows.

use crate::action::{ActionView, Icon, ServerFileBrowserAction, ToolbarButton, ToolbarButtonView};
use crate::entry::{DirectorySet, FileSystemEntryKind, ServerFileBrowserEntry};
use crate::model::Browser;
use crate::size::{format_file_size, size_text};
use crate::status::Message;
use crate::text::{concat3, texts};
use pathfinder_geometry::vector::Vector2F;
use vstd::hash_map::StringHashMap;
use vstd::prelude::*;

verus! {

/// What stands below the toolbar.
#[derive(Clone, Copy, Debug, PartialEq, Eq, Structural)]
pub enum Contents {
    /// A text in place of the rows.
    Message(Message),
    /// The rows, and below them the status, if there is one.
    Rows,
}

/// What stands below the toolbar of `browser`.
pub open spec fn contents_of(browser: Browser) -> Contents {
    if browser.host_id is None {
        Contents::Message(Message::NoSession)
    } else if browser.entries.len() > 0 {
        Contents::Rows
    } else if browser.loading {
        Contents::Message(Message::Loading)
    } else {
        Contents::Message(Message::EmptyDirectory)
    }
}

/// One row.
#[derive(Debug)]
pub struct Row<T> {
    /// By how many steps it is indented.
    pub indent: usize,
    /// What marks a directory as expanded or collapsed.
    pub chevron: Option<Icon>,
    pub icon: Icon,
    pub label: T,
    /// What stands below the label.
    pub metadata: Option<T>,
    pub is_selected: bool,
}

impl View for Row<String> {
    type V = Row<Seq<char>>;

    open spec fn view(&self) -> Row<Seq<char>> {
        Row {
            indent: self.indent,
            chevron: self.chevron,
            icon: self.icon,
            label: self.label@,
            metadata: match self.metadata {
                Some(text) => Some(text@),
                None => None,
            },
            is_selected: self.is_selected,
        }
    }
}

/// What stands below the label of a row: the size, if it is known, and the text `modified`, if
/// the time of the last change is known.
pub open spec fn metadata_of(entry: ServerFileBrowserEntry, modified: Seq<char>) -> Option<
    Seq<char>,
> {
    match (entry.size_bytes, entry.modified_epoch_millis) {
        (None, None) => None,
        (Some(size), None) => Some(size_text(size as nat)),
        (None, Some(_)) => Some(modified),
        (Some(size), Some(_)) => Some(size_text(size as nat) + " · "@ + modified),
    }
}

/// The row for `entry`.
pub open spec fn row_for(
    entry: ServerFileBrowserEntry,
    is_selected: bool,
    is_expanded: bool,
    modified: Seq<char>,
) -> Row<Seq<char>> {
    Row {
        indent: entry.depth,
        chevron: if entry.kind is Directory {
            Some(
                if is_expanded {
                    Icon::ChevronDown
                } else {
                    Icon::ChevronRight
                },
            )
        } else {
            None
        },
        icon: if entry.kind is Directory {
            Icon::Folder
        } else {
            Icon::File
        },
        label: entry.name@,
        metadata: metadata_of(entry, modified),
        is_selected,
    }
}

/// Lays out the row for `entry`. The text `modified` says that the time of the last change is
/// known.
pub fn entry_row(
    entry: &ServerFileBrowserEntry,
    is_selected: bool,
    is_expanded: bool,
    modified: &str,
) -> (row: Row<String>)
    ensures
        row@ == row_for(*entry, is_selected, is_expanded, modified@),
{
    let is_directory: bool = entry.kind == FileSystemEntryKind::Directory;
    let chevron: Option<Icon> = if is_directory {
        if is_expanded {
            Some(Icon::ChevronDown)
        } else {
            Some(Icon::ChevronRight)
        }
    } else {
        None
    };
    let metadata: Option<String> = match (entry.size_bytes, entry.modified_epoch_millis) {
        (None, None) => None,
        (Some(size), None) => Some(format_file_size(size)),
        (None, Some(_)) => Some(modified.to_owned()),
        (Some(size), Some(_)) => {
            let size: String = format_file_size(size);
            Some(concat3(size.as_str(), " · ", modified))
        },
    };
    Row {
        indent: entry.depth,
        chevron,
        icon: if is_directory {
            Icon::Folder
        } else {
            Icon::File
        },
        label: entry.name.clone(),
        metadata,
        is_selected,
    }
}

/// What the pointer does to a row.
#[derive(Clone, Copy, Debug)]
pub enum Pointer {
    Click,
    DoubleClick,
    /// A click with the right button, at this place of the panel.
    RightClick { position: Vector2F },
}

/// What the pointer's doing to the row `index` means.
pub open spec fn pointer_meaning(index: usize, pointer: Pointer) -> ActionView {
    match pointer {
        Pointer::Click => ActionView::ClickEntry(index),
        Pointer::DoubleClick => ActionView::OpenEntry(index),
        Pointer::RightClick { position } => ActionView::OpenContextMenu { index, position },
    }
}

/// What the pointer's doing to the row `index` means: a click selects the row, a double click
/// opens it, and a click with the right button shows its context menu.
pub fn row_action(index: usize, pointer: Pointer) -> (action: ServerFileBrowserAction)
    ensures
        action@ == pointer_meaning(index, pointer),
{
    match pointer {
        Pointer::Click => ServerFileBrowserAction::ClickEntry(index),
        Pointer::DoubleClick => ServerFileBrowserAction::OpenEntry(index),
        Pointer::RightClick { position } => ServerFileBrowserAction::OpenContextMenu {
            index,
            position,
        },
    }
}

/// The buttons of the toolbar of a browser that shows `current_path`.
pub open spec fn toolbar_for(current_path: Seq<char>) -> Seq<ToolbarButtonView> {
    seq![
        ToolbarButtonView { icon: Icon::Refresh, action: ActionView::Refresh },
        ToolbarButtonView {
            icon: Icon::UploadCloud,
            action: ActionView::UploadFiles(current_path),
        },
        ToolbarButtonView { icon: Icon::Folder, action: ActionView::UploadFolder(current_path) },
    ]
}

/// The buttons of the toolbar of a browser that shows `current_path`.
pub fn toolbar_buttons(current_path: &str) -> (buttons: Vec<ToolbarButton>)
    ensures
        buttons@.map_values(|button: ToolbarButton| button@) == toolbar_for(current_path@),
{
    let mut buttons: Vec<ToolbarButton> = Vec::new();
    buttons.push(ToolbarButton { icon: Icon::Refresh, action: ServerFileBrowserAction::Refresh });
    buttons.push(
        ToolbarButton {
            icon: Icon::UploadCloud,
            action: ServerFileBrowserAction::UploadFiles(current_path.to_owned()),
        },
    );
    buttons.push(
        ToolbarButton {
            icon: Icon::Folder,
            action: ServerFileBrowserAction::UploadFolder(current_path.to_owned()),
        },
    );
    assert(buttons@.map_values(|button: ToolbarButton| button@) =~= toolbar_for(current_path@));
    buttons
}

/// The paths of `entries`.
pub open spec fn paths_of(entries: Seq<ServerFileBrowserEntry>) -> Set<Seq<char>> {
    Set::new(
        |path: Seq<char>|
            exists|i: int| 0 <= i < entries.len() && (#[trigger] entries[i]).path@ == path,
    )
}

/// What the rows keep from one drawing to the next, by path.
#[verifier::reject_recursive_types(S)]
pub struct RowStates<S> {
    states: StringHashMap<S>,
    paths: Vec<String>,
}

impl<S> View for RowStates<S> {
    type V = Map<Seq<char>, S>;

    closed spec fn view(&self) -> Map<Seq<char>, S> {
        self.states@
    }
}

impl<S> RowStates<S> {
    /// Whether the paths that have a state are known.
    pub closed spec fn wf(&self) -> bool {
        forall|path: Seq<char>| #[trigger]
            self.states@.contains_key(path) ==> texts(self.paths@).contains(path)
    }

    /// No states.
    pub fn new() -> (states: Self)
        ensures
            states.wf(),
            states@ == Map::<Seq<char>, S>::empty(),
    {
        RowStates { states: StringHashMap::new(), paths: Vec::new() }
    }

    /// Forgets every state.
    pub fn clear(&mut self)
        ensures
            final(self).wf(),
            final(self)@ == Map::<Seq<char>, S>::empty(),
    {
        self.states.clear();
        self.paths = Vec::new();
    }

    /// The state of the row `path`.
    pub fn get(&self, path: &str) -> (state: Option<&S>)
        ensures
            match state {
                Some(state) => self@.contains_key(path@) && *state == self@[path@],
                None => !self@.contains_key(path@),
            },
    {
        self.states.get(path)
    }
}

/// Whether `after` holds a state for just the rows `entries`: the one in `before`, or else a new
/// one.
pub open spec fn states_synced<S: Default>(
    before: Map<Seq<char>, S>,
    entries: Seq<ServerFileBrowserEntry>,
    after: Map<Seq<char>, S>,
) -> bool {
    &&& after.dom() == paths_of(entries)
    &&& forall|path: Seq<char>| #[trigger]
        after.contains_key(path) ==> if before.contains_key(path) {
            after[path] == before[path]
        } else {
            call_ensures(S::default, (), after[path])
        }
}

/// The paths of `entries`, each as often as it occurs.
pub open spec fn path_list(entries: Seq<ServerFileBrowserEntry>) -> Seq<Seq<char>> {
    entries.map_values(|entry: ServerFileBrowserEntry| entry.path@)
}

proof fn listed_paths(entries: Seq<ServerFileBrowserEntry>, path: Seq<char>)
    ensures
        paths_of(entries).contains(path) <==> path_list(entries).contains(path),
{
    if paths_of(entries).contains(path) {
        let i = choose|i: int| 0 <= i < entries.len() && (#[trigger] entries[i]).path@ == path;
        assert(path_list(entries)[i] == path);
    }
    if path_list(entries).contains(path) {
        let i = path_list(entries).index_of(path);
        assert(entries[i].path@ == path);
    }
}

proof fn one_more_path(entries: Seq<ServerFileBrowserEntry>, i: int)
    requires
        0 <= i < entries.len(),
    ensures
        paths_of(entries.take(i + 1)) == paths_of(entries.take(i)).insert(entries[i].path@),
{
    let upto = entries.take(i);
    let more = entries.take(i + 1);
    assert forall|path: Seq<char>| paths_of(more).contains(path) <==> paths_of(upto).insert(
        entries[i].path@,
    ).contains(path) by {
        if paths_of(upto).contains(path) {
            let j = choose|j: int| 0 <= j < upto.len() && (#[trigger] upto[j]).path@ == path;
            assert(more[j].path@ == path);
        }
        if path == entries[i].path@ {
            assert(more[i].path@ == path);
        }
        if paths_of(more).contains(path) {
            let j = choose|j: int| 0 <= j < more.len() && (#[trigger] more[j]).path@ == path;
            if j < i {
                assert(upto[j].path@ == path);
            }
        }
    }
    assert(paths_of(more) =~= paths_of(upto).insert(entries[i].path@));
}

impl<S: Default> RowStates<S> {
    /// Keeps a state for each of `entries` and for nothing else: the one that is there, or a new
    /// one.
    pub fn sync(&mut self, entries: &Vec<ServerFileBrowserEntry>)
        requires
            old(self).wf(),
        ensures
            final(self).wf(),
            states_synced(old(self)@, entries@, final(self)@),
    {
        let ghost before = self@;
        let ghost known = texts(self.paths@);
        let mut active: DirectorySet = DirectorySet::new();
        let mut paths: Vec<String> = Vec::new();
        let mut i: usize = 0;
        assert(active@ =~= paths_of(entries@.take(0)));
        while i < entries.len()
            invariant
                i <= entries@.len(),
                known == texts(self.paths@),
                active@ == paths_of(entries@.take(i as int)),
                texts(paths@) == path_list(entries@.take(i as int)),
                forall|path: Seq<char>| #[trigger]
                    self.states@.contains_key(path) <==> before.contains_key(path)
                        || active@.contains(path),
                forall|path: Seq<char>| #[trigger]
                    self.states@.contains_key(path) ==> if before.contains_key(path) {
                        self.states@[path] == before[path]
                    } else {
                        call_ensures(S::default, (), self.states@[path])
                    },
            decreases entries@.len() - i,
        {
            let path: &String = &entries[i].path;
            proof {
                one_more_path(entries@, i as int);
            }
            if !self.states.contains_key(path.as_str()) {
                self.states.insert(path.clone(), S::default());
            }
            active.insert(path.clone());
            let ghost listed = texts(paths@);
            paths.push(path.clone());
            assert(texts(paths@) =~= listed.push(path@));
            assert(path_list(entries@.take(i + 1)) =~= listed.push(path@));
            i = i + 1;
        }
        assert(entries@.take(entries@.len() as int) =~= entries@);
        let ghost grown = self.states@;
        let mut k: usize = 0;
        while k < self.paths.len()
            invariant
                k <= self.paths@.len(),
                known == texts(self.paths@),
                active@ == paths_of(entries@),
                forall|path: Seq<char>| #[trigger]
                    self.states@.contains_key(path) <==> grown.contains_key(path) && (
                    active@.contains(path) || !known.take(k as int).contains(path)),
                forall|path: Seq<char>| #[trigger]
                    self.states@.contains_key(path) ==> self.states@[path] == grown[path],
            decreases self.paths@.len() - k,
        {
            let ghost gone = known.take(k as int);
            assert(known.take(k + 1) =~= gone.push(known[k as int]));
            proof {
                assert forall|path: Seq<char>| #[trigger]
                    gone.push(known[k as int]).contains(path) <==> gone.contains(path) || path
                        == known[k as int] by {
                    if gone.contains(path) {
                        let j = gone.index_of(path);
                        assert(gone.push(known[k as int])[j] == path);
                    }
                    if path == known[k as int] {
                        assert(gone.push(known[k as int])[k as int] == path);
                    }
                }
            }
            if !active.contains(self.paths[k].as_str()) {
                self.states.remove(self.paths[k].as_str());
            }
            k = k + 1;
        }
        assert(known.take(known.len() as int) =~= known);
        self.paths = paths;
        proof {
            assert forall|path: Seq<char>|
                self.states@.contains_key(path) <==> paths_of(entries@).contains(path) by {
                if before.contains_key(path) {
                    assert(known.contains(path));
                }
            }
            assert(self.states@.dom() =~= paths_of(entries@));
            assert forall|path: Seq<char>| #[trigger]
                self.states@.contains_key(path) implies texts(self.paths@).contains(path) by {
                listed_paths(entries@, path);
            }
        }
    }
}

/// Without a host, a session is asked for. With one, the rows are shown as soon as there are any,
/// and until then it is said whether the browser still waits for them.
pub proof fn contents_follow_the_rows(browser: Browser)
    ensures
        browser.host_id is None ==> contents_of(browser) == Contents::Message(Message::NoSession),
        browser.host_id is Some && browser.entries.len() > 0 ==> contents_of(browser)
            == Contents::Rows,
        browser.host_id is Some && browser.entries.len() == 0 && browser.loading ==> contents_of(
            browser,
        ) == Contents::Message(Message::Loading),
        browser.host_id is Some && browser.entries.len() == 0 && !browser.loading ==> contents_of(
            browser,
        ) == Contents::Message(Message::EmptyDirectory),
{
}

/// A row shows its entry: as far indented as the entry, under its name, with a folder and a chevron
/// if it is a directory and with a file and none otherwise. The chevron points down just if the
/// directory is expanded. Below the name stand the size and that the time is known, as far as they
/// are known.
pub proof fn rows_show_their_entries(
    entry: ServerFileBrowserEntry,
    is_selected: bool,
    is_expanded: bool,
    modified: Seq<char>,
)
    ensures
        ({
            let row = row_for(entry, is_selected, is_expanded, modified);
            &&& row.indent == entry.depth
            &&& row.label == entry.name@
            &&& row.is_selected == is_selected
            &&& entry.kind == FileSystemEntryKind::Directory ==> row.icon == Icon::Folder
                && row.chevron == Some(
                if is_expanded {
                    Icon::ChevronDown
                } else {
                    Icon::ChevronRight
                },
            )
            &&& entry.kind != FileSystemEntryKind::Directory ==> row.icon == Icon::File
                && row.chevron is None
            &&& entry.size_bytes is None && entry.modified_epoch_millis is None
                ==> row.metadata is None
            &&& entry.size_bytes is None && entry.modified_epoch_millis is Some ==> row.metadata
                == Some(modified)
            &&& entry.size_bytes matches Some(size) ==> entry.modified_epoch_millis is None
                ==> row.metadata == Some(size_text(size as nat))
            &&& entry.size_bytes matches Some(size) ==> entry.modified_epoch_millis is Some
                ==> row.metadata == Some(size_text(size as nat) + " · "@ + modified)
        }),
{
}

/// Taking a row by its characters keeps it.
pub proof fn rows_are_taken_whole(row: Row<String>)
    ensures
        row@.indent == row.indent,
        row@.chevron == row.chevron,
        row@.icon == row.icon,
        row@.label == row.label@,
        row.metadata matches Some(text) ==> row@.metadata == Some(text@),
        row.metadata is None ==> row@.metadata is None,
        row@.is_selected == row.is_selected,
{
}

/// What the pointer does to a row concerns just that row: a click selects it, a double click opens
/// it, and a click with the right button shows its menu where the pointer is.
pub proof fn pointer_concerns_its_row(index: usize, position: Vector2F)
    ensures
        pointer_meaning(index, Pointer::Click) == ActionView::ClickEntry(index),
        pointer_meaning(index, Pointer::DoubleClick) == ActionView::OpenEntry(index),
        pointer_meaning(index, Pointer::RightClick { position }) == (ActionView::OpenContextMenu {
            index,
            position,
        }),
{
}

/// The toolbar lists the current directory anew, uploads files into it, and uploads a folder into
/// it.
pub proof fn toolbar_is_about_the_current_directory(current_path: Seq<char>)
    ensures
        toolbar_for(current_path).len() == 3,
        toolbar_for(current_path)[0].icon == Icon::Refresh,
        toolbar_for(current_path)[0].action is Refresh,
        toolbar_for(current_path)[1].icon == Icon::UploadCloud,
        toolbar_for(current_path)[1].action == ActionView::UploadFiles(current_path),
        toolbar_for(current_path)[2].icon == Icon::Folder,
        toolbar_for(current_path)[2].action == ActionView::UploadFolder(current_path),
{
}

/// States in step with the rows are there for each row and for nothing else; a row that had a state
/// has the same, and any other has a new one.
pub proof fn states_in_step_are_those_of_the_rows<S: Default>(
    before: Map<Seq<char>, S>,
    entries: Seq<ServerFileBrowserEntry>,
    after: Map<Seq<char>, S>,
    path: Seq<char>,
)
    requires
        states_synced(before, entries, after),
    ensures
        after.contains_key(path) <==> exists|i: int|
            0 <= i < entries.len() && (#[trigger] entries[i]).path@ == path,
        after.contains_key(path) && before.contains_key(path) ==> after[path] == before[path],
        after.contains_key(path) && !before.contains_key(path) ==> call_ensures(
            S::default,
            (),
            after[path],
        ),
{
    assert(paths_of(entries).contains(path) <==> after.dom().contains(path));
}

} // verus!
