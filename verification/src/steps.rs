//! What each thing that happens does to the browser, and what it leaves as it is.

use crate::action::{ActionView, EditorEvent, Effects, MenuEntry, Route, Work};
use crate::entry::{all_at_depth, FileSystemEntryKind, ServerFileBrowserEntry};
use crate::listing::ResolvedRemotePath;
use crate::model::{
    listing_view, menu_views, resolved_view, transfer_view, Browser,
};
use crate::paths::{basename_of, parent_of};
use crate::selection::{row_after, row_after_rebuild, row_before, row_of, row_of_is_first};
use crate::status::{Message, Status};
use crate::text::trimmed;
use crate::tree::{
    ends, extends_directories, extends_directory, longer_paths_end, listings_indented, roots, rows,
};
use pathfinder_geometry::vector::Vector2F;
use vstd::prelude::*;

verus! {

/// A browser starts without a host, a session, a path, rows, a selection and a menu, waits for
/// nothing, and says that it is empty.
pub proof fn browser_starts_empty()
    ensures
        ({
            let browser = Browser::start();
            &&& browser.host_id is None && browser.session is None
            &&& browser.current_path.len() == 0 && browser.entries.len() == 0
            &&& browser.expanded == Set::<Seq<char>>::empty()
            &&& browser.loaded == Map::<Seq<char>, Seq<ServerFileBrowserEntry>>::empty()
            &&& browser.selected is None && !browser.loading
            &&& browser.status == Some(Status::<Seq<char>>::Message(Message::Empty))
            &&& browser.menu.len() == 0 && browser.menu_position is None
        }),
{
}

/// What holds of the browser at all times: the selection is one of the rows, every listed entry is
/// indented, and the rows come to an end.
pub proof fn well_formed_browsers(browser: Browser)
    ensures
        browser.wf() <==> {
            &&& browser.entries.len() <= usize::MAX
            &&& browser.selected matches Some(row) ==> row < browser.entries.len()
            &&& browser.loaded.dom().finite()
            &&& forall|directory: Seq<char>, i: int|
                browser.loaded.contains_key(directory) && 0 <= i < browser.loaded[directory].len()
                    ==> (#[trigger] browser.loaded[directory][i]).depth > 0
            &&& ends(roots(browser.entries), browser.expanded, browser.loaded)
        },
        browser.settled() <==> browser.entries == rows(
            roots(browser.entries),
            browser.expanded,
            browser.loaded,
        ),
        listings_indented(browser.loaded) <==> forall|directory: Seq<char>, i: int|
            browser.loaded.contains_key(directory) && 0 <= i < browser.loaded[directory].len()
                ==> (#[trigger] browser.loaded[directory][i]).depth > 0,
{
}

/// The host is reached through its daemon if one is connected for it, otherwise through the session,
/// and without either not at all.
pub proof fn daemon_comes_before_the_session(browser: Browser, connected: bool)
    ensures
        browser.has_client(connected) <==> browser.host_id is Some && connected,
        browser.host_id is Some && connected ==> browser.route(connected) == Some(Route::Client),
        browser.host_id is None || !connected ==> browser.route(connected) == (
        match browser.session {
            Some(session) => Some(Route::Session(session)),
            None => None,
        }),
{
}

/// An error is told, and the browser waits no longer; nothing else changes, and nothing is asked for
/// but to be drawn anew.
pub proof fn errors_are_told(browser: Browser, message: Message)
    ensures
        browser.failed(message).0 == (Browser {
            loading: false,
            status: Some(Status::Message(message)),
            ..browser
        }),
        browser.failed(message).1 == Effects::<Seq<char>>::redraw(),
{
}

/// Loading asks for the current directory, or for `~` where there is none, and leaves everything
/// but that the browser waits and what it says. Where the host cannot be reached, that is told.
pub proof fn loading_asks_for_the_current_directory(browser: Browser, connected: bool)
    ensures
        browser.route(connected) matches Some(route) ==> {
            let (after, effects) = browser.load(connected);
            &&& after == Browser { loading: true, status: None, ..browser }
            &&& browser.current_path.len() > 0 ==> effects == Effects::<Seq<char>>::redraw_and(
                Work::ListCurrent { route, path: browser.current_path },
            )
            &&& browser.current_path.len() == 0 ==> effects == Effects::<Seq<char>>::redraw_and(
                Work::ListCurrent { route, path: "~"@ },
            )
        },
        browser.route(connected) is None ==> browser.load(connected) == browser.failed(
            Message::NoSession,
        ),
{
}

/// Going somewhere makes it the current directory, says so in the field for paths, and loads it.
pub proof fn going_somewhere_loads_it(browser: Browser, path: Seq<char>, connected: bool)
    ensures
        ({
            let (after, effects) = browser.go_to(path, connected);
            let (loaded, asked) = Browser { current_path: path, ..browser }.load(connected);
            &&& after == loaded
            &&& after.current_path == path
            &&& effects == Effects { sync_editor: true, ..asked }
        }),
{
}

/// A root that is given becomes the host, the session and the directory that are shown. It is loaded
/// just if one of the three is new, and the rows stay until then.
pub proof fn a_new_root_is_loaded(
    browser: Browser,
    host_id: Seq<char>,
    path: Seq<char>,
    session: Option<u64>,
    connected: bool,
)
    ensures
        ({
            let (after, effects) = browser.set_remote_root(host_id, path, session, connected);
            let rooted = Browser { host_id: Some(host_id), session, ..browser };
            let is_new = browser.host_id != Some(host_id) || browser.current_path != path
                || browser.session != session;
            &&& after.host_id == Some(host_id)
            &&& after.session == session
            &&& after.current_path == path
            &&& is_new ==> (after, effects) == rooted.go_to(path, connected)
            &&& !is_new ==> after == rooted && effects == Effects::<Seq<char>>::nothing()
        }),
{
}

/// Where nothing is selected, the focus selects the first row, and leaves everything else.
pub proof fn focus_selects_the_first_row(browser: Browser)
    ensures
        ({
            let selects = browser.selected is None && browser.entries.len() > 0;
            let first = Browser { selected: Some(0), ..browser };
            &&& selects ==> browser.select_first() == first
            &&& !selects ==> browser.select_first() == browser
            &&& browser.focus_panel().0 == browser.select_first()
            &&& browser.focus_panel().1 == Effects {
                focus: true,
                ..Effects::<Seq<char>>::redraw()
            }
            &&& selects ==> browser.focus(true) == (first, Effects::<Seq<char>>::redraw())
            &&& !selects ==> browser.focus(true) == (browser, Effects::<Seq<char>>::nothing())
            &&& browser.focus(false) == (browser, Effects::<Seq<char>>::nothing())
        }),
{
}

/// A row is selected just if it is there, and nothing else changes.
pub proof fn rows_that_are_there_are_selected(browser: Browser, index: usize)
    ensures
        index < browser.entries.len() ==> browser.select(index) == (
            Browser { selected: Some(index), ..browser },
            Effects::<Seq<char>>::redraw(),
        ),
        index >= browser.entries.len() ==> browser.select(index) == (
            browser,
            Effects::<Seq<char>>::nothing(),
        ),
{
}

/// A listing of the current directory is shown as it is: its path, its entries in their order,
/// nothing expanded, listed or selected, and no menu. An error is told and leaves the rows.
pub proof fn listings_are_shown_as_they_are(
    browser: Browser,
    path: Seq<char>,
    entries: Seq<ServerFileBrowserEntry>,
    error: Status<Seq<char>>,
)
    ensures
        ({
            let (after, effects) = browser.finish_load(Ok((path, entries)));
            &&& after.current_path == path
            &&& after.entries == entries
            &&& after.expanded == Set::<Seq<char>>::empty()
            &&& after.loaded == Map::<Seq<char>, Seq<ServerFileBrowserEntry>>::empty()
            &&& after.selected is None && !after.loading && after.status is None
            &&& after.menu_position is None
            &&& after.host_id == browser.host_id && after.session == browser.session
            &&& after.menu == browser.menu
            &&& effects == Effects {
                sync_editor: true,
                reset_scroll: true,
                ..Effects::<Seq<char>>::redraw()
            }
        }),
        browser.finish_load(Err(error)) == (
            Browser { loading: false, status: Some(error), ..browser },
            Effects::<Seq<char>>::redraw(),
        ),
{
}

/// To resolve a path is to ask for just that path, for the host that is shown. Where the host cannot
/// be reached, that is told.
pub proof fn resolving_asks_for_the_path(browser: Browser, path: Seq<char>, connected: bool)
    ensures
        browser.route(connected) matches Some(route) ==> browser.resolve(path, connected) == (
            Browser { loading: true, status: None, ..browser },
            Effects::<Seq<char>>::redraw_and(
                Work::Resolve { route, path, host_id: browser.host_id },
            ),
        ),
        browser.route(connected) is None ==> browser.resolve(path, connected) == browser.failed(
            Message::NoSession,
        ),
{
}

/// What is typed is resolved without the white space around it; a blank text is ignored. Escape puts
/// the current path back.
pub proof fn typed_paths_are_resolved(browser: Browser, typed: Seq<char>, connected: bool)
    ensures
        trimmed(typed).len() > 0 ==> browser.jump(typed, connected) == browser.resolve(
            trimmed(typed),
            connected,
        ),
        trimmed(typed).len() == 0 ==> browser.jump(typed, connected) == (
            browser,
            Effects::<Seq<char>>::nothing(),
        ),
        browser.edit(EditorEvent::Enter, typed, connected) == browser.jump(typed, connected),
        browser.edit(EditorEvent::Escape, typed, connected) == (
            browser,
            Effects { sync_editor: true, ..Effects::<Seq<char>>::nothing() },
        ),
        browser.edit(EditorEvent::Other, typed, connected) == (
            browser,
            Effects::<Seq<char>>::nothing(),
        ),
{
}

/// A path that names a directory is gone to. One that names a file is opened on the host that it was
/// resolved for, and the directory that holds it is gone to. Any other is turned down, and an error
/// is told.
pub proof fn resolved_paths_are_opened(
    browser: Browser,
    path: Seq<char>,
    kind: FileSystemEntryKind,
    error: Status<Seq<char>>,
    host_id: Option<Seq<char>>,
    connected: bool,
)
    ensures
        ({
            let idle = Browser { loading: false, ..browser };
            let (after, effects) = browser.finish_resolve(Ok((path, kind)), host_id, connected);
            &&& kind == FileSystemEntryKind::Directory ==> (after, effects) == idle.go_to(
                path,
                connected,
            )
            &&& kind == FileSystemEntryKind::File ==> {
                let (gone, asked) = match parent_of(path) {
                    Some(parent) => idle.go_to(parent, connected),
                    None => (idle, Effects::<Seq<char>>::redraw()),
                };
                &&& after == gone
                &&& host_id matches Some(host) ==> effects == Effects {
                    open: Some((host, path)),
                    ..asked
                }
                &&& host_id is None ==> effects == asked
            }
            &&& kind != FileSystemEntryKind::Directory && kind != FileSystemEntryKind::File ==> (
                after,
                effects,
            ) == (
                Browser {
                    status: Some(Status::Message(Message::UnsupportedPath)),
                    ..idle
                },
                Effects::<Seq<char>>::redraw(),
            )
            &&& browser.finish_resolve(Err(error), host_id, connected) == (
                Browser { status: Some(error), ..idle },
                Effects::<Seq<char>>::redraw(),
            )
        }),
{
}

/// Rebuilding shows what belongs to the roots, and to what is expanded and listed, selects the
/// selected path again while it is shown, and leaves everything else.
pub proof fn rebuilding_changes_rows_and_selection(browser: Browser)
    ensures
        ({
            let after = browser.rebuilt();
            &&& after.entries == rows(roots(browser.entries), browser.expanded, browser.loaded)
            &&& after == Browser {
                entries: after.entries,
                selected: after.selected,
                ..browser
            }
            &&& after.selected == row_after_rebuild(
                after.entries,
                browser.selected_path(),
                browser.selected,
            )
            &&& browser.selected matches Some(row) ==> row < browser.entries.len() ==> browser
                .selected_path() == Some(browser.entries[row as int].path@)
            &&& browser.selected is None ==> browser.selected_path() is None
        }),
{
}

/// Toggling a directory expands it if it is collapsed and collapses it if it is expanded, and leaves
/// every other directory as it is. The rows are then those that belong to it, and nothing is asked
/// of the remote host unless the directory is expanded and not listed yet: then just that directory
/// is asked for, to be indented one step more than its row, or one step if it has no row.
pub proof fn toggling_concerns_one_directory(
    browser: Browser,
    path: Seq<char>,
    other: Seq<char>,
    connected: bool,
)
    requires
        browser.entries.len() <= usize::MAX,
        browser.can_toggle(path),
    ensures
        ({
            let (after, effects) = browser.toggle(path, connected);
            let was = browser.expanded.contains(path);
            let needs_listing = !was && !browser.loaded.contains_key(path);
            &&& after.expanded.contains(path) <==> !was
            &&& other != path ==> (after.expanded.contains(other) <==> browser.expanded.contains(
                other,
            ))
            &&& after.loaded == browser.loaded
            &&& after.host_id == browser.host_id && after.session == browser.session
            &&& after.current_path == browser.current_path && after.menu == browser.menu
            &&& after.menu_position == browser.menu_position
            &&& !needs_listing ==> {
                &&& after.entries == rows(roots(browser.entries), after.expanded, browser.loaded)
                &&& after.selected == row_after_rebuild(
                    after.entries,
                    browser.selected_path(),
                    browser.selected,
                )
                &&& after.loading == browser.loading && after.status == browser.status
                &&& effects == Effects::<Seq<char>>::redraw()
            }
            &&& needs_listing ==> after.entries == browser.entries && after.selected
                == browser.selected
            &&& needs_listing && browser.route(connected) is None ==> !after.loading && after.status
                == Some(Status::<Seq<char>>::Message(Message::NoSession)) && effects
                == Effects::<Seq<char>>::redraw()
            &&& needs_listing ==> (browser.route(connected) matches Some(route) ==> {
                &&& after.loading && after.status == browser.status
                &&& effects.work matches Work::ListChildren { route: r, path: p, depth } && r
                    == route && p == path && match row_of(browser.entries, path) {
                    Some(row) => depth == browser.entries[row as int].depth + 1,
                    None => depth == 1,
                }
                &&& effects == Effects::<Seq<char>>::redraw_and(effects.work)
            })
        }),
{
    row_of_is_first(browser.entries, path);
}

/// Every directory can be toggled whose row is not indented as far as can be, if each listed entry
/// has a longer path than the directory it was listed for; one that is expanded can always.
pub proof fn directories_can_be_toggled(browser: Browser, path: Seq<char>)
    requires
        browser.loaded.dom().finite(),
        browser.entries.len() <= usize::MAX,
        forall|directory: Seq<char>, i: int|
            browser.loaded.contains_key(directory) && 0 <= i < browser.loaded[directory].len()
                ==> (#[trigger] browser.loaded[directory][i]).path@.len() > directory.len(),
        forall|i: int|
            0 <= i < browser.entries.len() ==> (#[trigger] browser.entries[i]).depth < usize::MAX,
    ensures
        browser.can_toggle(path),
        forall|action: ActionView| #[trigger] browser.can_act(action),
{
    assert forall|directory: Seq<char>| #[trigger] browser.can_toggle(directory) by {
        row_of_is_first(browser.entries, directory);
        longer_paths_end(
            roots(browser.entries),
            browser.expanded.insert(directory),
            browser.loaded,
        );
    }
}

/// An action can be done just if it toggles no directory, or one that can be toggled. A directory
/// can be toggled if it is expanded, or if its entries can be indented and, where they are known,
/// the rows still come to an end.
pub proof fn what_can_be_done(browser: Browser, path: Seq<char>, index: usize)
    requires
        browser.wf(),
    ensures
        browser.can_toggle(path) <==> browser.expanded.contains(path) || {
            &&& match row_of(browser.entries, path) {
                Some(row) => browser.entries[row as int].depth < usize::MAX,
                None => true,
            }
            &&& browser.loaded.contains_key(path) ==> ends(
                roots(browser.entries),
                browser.expanded.insert(path),
                browser.loaded,
            )
        },
        browser.can_act(ActionView::ToggleDirectory(path)) <==> browser.can_toggle(path),
        browser.can_act(ActionView::ClickEntry(index)) <==> (index < browser.entries.len()
            && browser.entries[index as int].kind == FileSystemEntryKind::Directory
            ==> browser.can_toggle(browser.entries[index as int].path@)),
        browser.can_act(ActionView::OpenEntry(index)) <==> browser.can_act(
            ActionView::ClickEntry(index),
        ),
        browser.selected == Some(index) ==> (browser.can_act(ActionView::ExecuteSelectedItem)
            <==> browser.can_act(ActionView::ClickEntry(index))),
        browser.selected == Some(index) ==> (browser.can_act(ActionView::ExpandSelectedItem)
            <==> browser.can_act(ActionView::ClickEntry(index))),
        browser.selected is None ==> browser.can_act(ActionView::ExecuteSelectedItem)
            && browser.can_act(ActionView::ExpandSelectedItem),
        forall|action: ActionView|
            !(action is ToggleDirectory || action is ClickEntry || action is OpenEntry || action
                is ExecuteSelectedItem || action is ExpandSelectedItem) ==> #[trigger] browser.can_act(
                action,
            ),
{
    row_of_is_first(browser.entries, path);
}

/// A listing of an expanded directory is kept for its path, indented as asked for, and every other
/// listing stays. The rows are then those that belong to what is expanded and listed. An error is
/// told and leaves the rows.
pub proof fn listings_are_kept_for_their_path(
    browser: Browser,
    path: Seq<char>,
    entries: Seq<ServerFileBrowserEntry>,
    error: Status<Seq<char>>,
    depth: usize,
    other: Seq<char>,
)
    ensures
        ({
            let (after, effects) = browser.finish_toggle(Ok((path, entries)), depth);
            &&& after.loaded.contains_key(path) && after.loaded[path] == all_at_depth(
                entries,
                depth,
            )
            &&& other != path ==> (after.loaded.contains_key(other)
                <==> browser.loaded.contains_key(other))
            &&& other != path && browser.loaded.contains_key(other) ==> after.loaded[other]
                == browser.loaded[other]
            &&& after.entries == rows(roots(browser.entries), browser.expanded, after.loaded)
            &&& after.selected == row_after_rebuild(
                after.entries,
                browser.selected_path(),
                browser.selected,
            )
            &&& after == Browser {
                entries: after.entries,
                loaded: after.loaded,
                selected: after.selected,
                loading: false,
                ..browser
            }
            &&& effects == Effects::<Seq<char>>::redraw()
            &&& browser.can_finish_toggle(Ok((path, entries)), depth) <==> ends(
                roots(browser.entries),
                browser.expanded,
                after.loaded,
            )
        }),
        browser.finish_toggle(Err(error), depth) == (
            Browser { loading: false, status: Some(error), ..browser },
            Effects::<Seq<char>>::redraw(),
        ),
        browser.can_finish_toggle(Err(error), depth),
{
}

/// Where every listed entry has a longer path than the directory it was listed for, a listing of
/// which that is true, too, can be taken over.
pub proof fn listings_below_can_be_taken_over(
    browser: Browser,
    path: Seq<char>,
    entries: Seq<ServerFileBrowserEntry>,
    depth: usize,
)
    requires
        browser.loaded.dom().finite(),
        forall|directory: Seq<char>, i: int|
            browser.loaded.contains_key(directory) && 0 <= i < browser.loaded[directory].len()
                ==> (#[trigger] browser.loaded[directory][i]).path@.len() > directory.len(),
        forall|i: int|
            0 <= i < entries.len() ==> (#[trigger] entries[i]).path@.len() > path.len(),
    ensures
        browser.can_finish_toggle(Ok((path, entries)), depth),
        extends_directory(path, entries),
        extends_directories(browser.loaded),
{
    let children = all_at_depth(entries, depth);
    let loaded = browser.loaded.insert(path, children);
    assert forall|directory: Seq<char>, i: int|
        loaded.contains_key(directory) && 0 <= i < loaded[directory].len() implies (
    #[trigger] loaded[directory][i]).path@.len() > directory.len() by {
        if directory == path {
            assert(children[i].path@ == entries[i].path@);
        } else {
            assert(browser.loaded[directory][i].path@.len() > directory.len());
        }
    }
    longer_paths_end(roots(browser.entries), browser.expanded, loaded);
}

/// A click selects its row, and toggles it if it is a directory. Opening a row selects it, too: a
/// directory is toggled, a file is opened on the host that is shown, and anything else is resolved.
/// A row that is not there changes nothing.
pub proof fn rows_are_opened_by_their_kind(browser: Browser, index: usize, connected: bool)
    ensures
        index >= browser.entries.len() ==> browser.click(index, connected) == (
            browser,
            Effects::<Seq<char>>::nothing(),
        ) && browser.open_row(index, connected) == (browser, Effects::<Seq<char>>::nothing()),
        index < browser.entries.len() ==> {
            let entry = browser.entries[index as int];
            let selected = Browser { selected: Some(index), ..browser };
            let opened = browser.open_row(index, connected);
            &&& entry.kind == FileSystemEntryKind::Directory ==> browser.click(index, connected)
                == selected.toggle(entry.path@, connected) && opened == selected.toggle(
                entry.path@,
                connected,
            )
            &&& entry.kind != FileSystemEntryKind::Directory ==> browser.click(index, connected)
                == (selected, Effects::<Seq<char>>::redraw())
            &&& entry.kind == FileSystemEntryKind::File ==> opened.0 == selected && (
            browser.host_id matches Some(host) ==> opened.1 == Effects {
                open: Some((host, entry.path@)),
                ..Effects::<Seq<char>>::redraw()
            }) && (browser.host_id is None ==> opened.1 == Effects::<Seq<char>>::redraw())
            &&& entry.kind != FileSystemEntryKind::Directory && entry.kind
                != FileSystemEntryKind::File ==> opened == selected.resolve(entry.path@, connected)
        },
{
}

/// The context menu of an entry downloads it, uploads files and a folder, copies its path and, for a
/// directory, jumps to it. Uploads go into a directory, and next to anything else.
pub proof fn menus_are_about_their_entry(browser: Browser, entry: ServerFileBrowserEntry)
    ensures
        ({
            let menu = browser.menu_for(entry);
            let is_directory = entry.kind == FileSystemEntryKind::Directory;
            let target = if is_directory {
                entry.path@
            } else {
                match parent_of(entry.path@) {
                    Some(parent) => parent,
                    None => browser.current_path,
                }
            };
            &&& is_directory ==> menu.len() == 5 && menu[4].label == Message::MenuJumpToPath
                && menu[4].action == ActionView::JumpToDirectory(entry.path@)
            &&& !is_directory ==> menu.len() == 4
            &&& menu[0].label == Message::MenuDownload && menu[0].action == ActionView::Download(
                entry.path@,
            )
            &&& menu[1].label == Message::MenuUploadFile && menu[1].action
                == ActionView::UploadFiles(target)
            &&& menu[2].label == Message::MenuUploadFolder && menu[2].action
                == ActionView::UploadFolder(target)
            &&& menu[3].label == Message::MenuCopyPath && menu[3].action == ActionView::CopyPath(
                entry.path@,
            )
        }),
{
}

/// A menu is opened for a row that is there: the row is selected and its menu is shown where asked
/// for. It is hidden without any other change, as it is when it closes.
pub proof fn menus_are_opened_and_hidden(browser: Browser, index: usize, position: Vector2F)
    ensures
        index < browser.entries.len() ==> browser.open_menu(index, position) == (
            Browser {
                selected: Some(index),
                menu: browser.menu_for(browser.entries[index as int]),
                menu_position: Some(position),
                ..browser
            },
            Effects::<Seq<char>>::redraw(),
        ),
        index >= browser.entries.len() ==> browser.open_menu(index, position) == (
            browser,
            Effects::<Seq<char>>::nothing(),
        ),
        browser.without_menu() == (Browser { menu_position: None, ..browser }),
        browser.menu_event(true) == (browser.without_menu(), Effects::<Seq<char>>::redraw()),
        browser.menu_event(false) == (browser, Effects::<Seq<char>>::redraw()),
{
}

/// Uploads and downloads need the daemon; without it, that is told. An upload goes into the
/// directory that was asked for. A download is of a row that is there: a directory goes into a
/// folder, and anything else to a file that is named like it unless the user says otherwise.
pub proof fn transfers_are_of_what_was_asked_for(
    browser: Browser,
    path: Seq<char>,
    folder: bool,
    connected: bool,
)
    requires
        browser.entries.len() <= usize::MAX,
    ensures
        browser.has_client(connected) ==> browser.choose_upload(path, folder, connected) == (
            browser,
            Effects {
                work: Work::PickUpload { remote_directory: path, folder },
                ..Effects::<Seq<char>>::nothing()
            },
        ),
        !browser.has_client(connected) ==> browser.choose_upload(path, folder, connected)
            == browser.failed(Message::NoSession),
        (forall|i: int|
            0 <= i < browser.entries.len() ==> (#[trigger] browser.entries[i]).path@ != path)
            ==> browser.choose_download(path, connected) == (
            browser,
            Effects::<Seq<char>>::nothing(),
        ),
        row_of(browser.entries, path) matches Some(row) ==> {
            &&& !browser.has_client(connected) ==> browser.choose_download(path, connected)
                == browser.failed(Message::NoSession)
            &&& browser.has_client(connected) ==> {
                let is_directory = browser.entries[row as int].kind
                    == FileSystemEntryKind::Directory;
                let (after, effects) = browser.choose_download(path, connected);
                &&& after == browser
                &&& effects == Effects {
                    work: effects.work,
                    ..Effects::<Seq<char>>::nothing()
                }
                &&& is_directory ==> effects.work == (Work::PickDownloadFolder {
                    remote_path: path,
                })
                &&& !is_directory ==> effects.work == (Work::PickDownloadFile {
                    remote_path: path,
                    default_filename: basename_of(path),
                })
            }
        },
{
    row_of_is_first(browser.entries, path);
}

/// After a transfer the current directory is loaded anew; a failure is told and changes nothing
/// else.
pub proof fn finished_transfers_are_shown(
    browser: Browser,
    error: Status<Seq<char>>,
    connected: bool,
)
    ensures
        browser.finish_transfer(Ok(()), connected) == (Browser {
            status: Some(Status::Message(Message::TransferComplete)),
            ..browser
        }).load(connected),
        browser.finish_transfer(Err(error), connected) == (
            Browser { status: Some(error), ..browser },
            Effects::<Seq<char>>::redraw(),
        ),
{
}

/// The keys move the selection, and expand, collapse and open the selected row; expanding and
/// collapsing do nothing to what is no directory, or is so already.
pub proof fn keys_concern_the_selected_row(browser: Browser, connected: bool)
    requires
        browser.wf(),
    ensures
        browser.select_previous() == (
            Browser {
                selected: row_before(browser.selected, browser.entries.len() as usize),
                ..browser
            },
            Effects::<Seq<char>>::redraw(),
        ),
        browser.select_next() == (
            Browser {
                selected: row_after(browser.selected, browser.entries.len() as usize),
                ..browser
            },
            Effects::<Seq<char>>::redraw(),
        ),
        browser.selected is None ==> {
            let same = (browser, Effects::<Seq<char>>::nothing());
            &&& browser.expand_selected(connected) == same
            &&& browser.collapse_selected(connected) == same
            &&& browser.open_selected(connected) == same
        },
        browser.selected matches Some(index) ==> {
            let same = (browser, Effects::<Seq<char>>::nothing());
            let entry = browser.entries[index as int];
            let is_directory = entry.kind == FileSystemEntryKind::Directory;
            let is_expanded = browser.expanded.contains(entry.path@);
            let toggled = browser.toggle(entry.path@, connected);
            &&& browser.open_selected(connected) == browser.open_row(index, connected)
            &&& is_directory && !is_expanded ==> browser.expand_selected(connected) == toggled
            &&& !is_directory || is_expanded ==> browser.expand_selected(connected) == same
            &&& is_directory && is_expanded ==> browser.collapse_selected(connected) == toggled
            &&& !is_directory || !is_expanded ==> browser.collapse_selected(connected) == same
            &&& is_directory ==> browser.selected_directory() == Some(entry.path@)
            &&& !is_directory ==> browser.selected_directory() is None
        },
        browser.selected is None ==> browser.selected_directory() is None,
{
}

/// A path that is copied goes to the clipboard as it is; that is told, and the menu is hidden.
pub proof fn copied_paths_are_told(browser: Browser, path: Seq<char>)
    ensures
        browser.copy(path) == (
            Browser {
                status: Some(Status::Message(Message::CopiedPath)),
                menu_position: None,
                ..browser
            },
            Effects::<Seq<char>>::redraw_and(Work::Copy { path }),
        ),
{
}

/// Each action of the user does one thing, to what it names.
pub proof fn actions_do_what_they_name(
    browser: Browser,
    path: Seq<char>,
    index: usize,
    position: Vector2F,
    connected: bool,
    typed: Seq<char>,
)
    ensures
        browser.act(ActionView::Refresh, connected, typed) == browser.load(connected),
        browser.act(ActionView::JumpToPath, connected, typed) == browser.jump(typed, connected),
        browser.act(ActionView::ClickEntry(index), connected, typed) == (
            browser.click(index, connected).0,
            Effects { focus: true, ..browser.click(index, connected).1 },
        ),
        browser.act(ActionView::OpenEntry(index), connected, typed) == (
            browser.open_row(index, connected).0,
            Effects { focus: true, ..browser.open_row(index, connected).1 },
        ),
        browser.act(ActionView::ToggleDirectory(path), connected, typed) == browser.toggle(
            path,
            connected,
        ),
        browser.act(ActionView::SelectPreviousItem, connected, typed) == browser.select_previous(),
        browser.act(ActionView::SelectNextItem, connected, typed) == browser.select_next(),
        browser.act(ActionView::ExpandSelectedItem, connected, typed) == browser.expand_selected(
            connected,
        ),
        browser.act(ActionView::CollapseSelectedItem, connected, typed)
            == browser.collapse_selected(connected),
        browser.act(ActionView::ExecuteSelectedItem, connected, typed) == browser.open_selected(
            connected,
        ),
        browser.act(ActionView::OpenContextMenu { index, position }, connected, typed)
            == browser.open_menu(index, position),
        browser.act(ActionView::DismissContextMenu, connected, typed) == (
            browser.without_menu(),
            Effects::<Seq<char>>::redraw(),
        ),
        browser.act(ActionView::CopyPath(path), connected, typed) == browser.copy(path),
        browser.act(ActionView::JumpToDirectory(path), connected, typed)
            == browser.without_menu().go_to(path, connected),
        browser.act(ActionView::Download(path), connected, typed) == (
            browser.without_menu().choose_download(path, connected).0,
            Effects {
                notify: true,
                ..browser.without_menu().choose_download(path, connected).1
            },
        ),
        browser.act(ActionView::UploadFiles(path), connected, typed) == (
            browser.without_menu().choose_upload(path, false, connected).0,
            Effects {
                notify: true,
                ..browser.without_menu().choose_upload(path, false, connected).1
            },
        ),
        browser.act(ActionView::UploadFolder(path), connected, typed) == (
            browser.without_menu().choose_upload(path, true, connected).0,
            Effects {
                notify: true,
                ..browser.without_menu().choose_upload(path, true, connected).1
            },
        ),
{
}

/// Taking answers and menus by their characters keeps them.
pub proof fn answers_are_taken_whole(
    path: String,
    entries: Vec<ServerFileBrowserEntry>,
    found: ResolvedRemotePath,
    error: Status<String>,
    menu: Seq<MenuEntry>,
)
    ensures
        listing_view(Ok((path, entries))) == Ok::<_, Status<Seq<char>>>((path@, entries@)),
        listing_view(Err(error)) == Err::<(Seq<char>, Seq<ServerFileBrowserEntry>), _>(error@),
        resolved_view(Ok(found)) == Ok::<_, Status<Seq<char>>>((found.canonical_path@, found.kind)),
        resolved_view(Err(error)) == Err::<(Seq<char>, FileSystemEntryKind), _>(error@),
        transfer_view(Ok(())) is Ok,
        transfer_view(Err(error)) == Err::<(), _>(error@),
        menu_views(menu).len() == menu.len(),
        forall|i: int| 0 <= i < menu.len() ==> #[trigger] menu_views(menu)[i] == menu[i]@,
{
}

} // verus!
